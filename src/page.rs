use vstd::prelude::*;

verus! {

/// The names held by a list of strings, as character sequences.
pub open spec fn keys(v: Seq<String>) -> Seq<Seq<char>> {
    v.map_values(|s: String| s@)
}

/// No name occurs twice.
pub open spec fn unique(s: Seq<Seq<char>>) -> bool {
    forall|i: int, j: int| 0 <= i < s.len() && 0 <= j < s.len() && i != j ==> s[i] != s[j]
}

/// The list of registered names after registering `n`: a name already present keeps its place.
pub open spec fn names_after_register(names: Seq<Seq<char>>, n: Seq<char>) -> Seq<Seq<char>> {
    if names.contains(n) {
        names
    } else {
        names.push(n)
    }
}

/// Where the last segment of `s` begins when `s` is cut at each `::`, the separators being
/// found left to right without overlap, from position `i` on, the current segment beginning at
/// `start`.
pub open spec fn segment_start(s: Seq<char>, i: int, start: int) -> int
    decreases s.len() - i,
{
    if i < 0 || i + 1 >= s.len() {
        start
    } else if s[i] == ':' && s[i + 1] == ':' {
        segment_start(s, i + 2, i + 2)
    } else {
        segment_start(s, i + 1, start)
    }
}

/// The text after the last `::` of a path, or the whole path where it has none.
pub open spec fn last_segment(s: Seq<char>) -> Seq<char> {
    s.subrange(segment_start(s, 0, 0), s.len() as int)
}

/// The name a page is registered under: the last segment of its type's path.
pub fn page_name(path: &Vec<char>) -> (r: Vec<char>)
    ensures
        r@ == last_segment(path@),
{
    let n = path.len();
    let mut i: usize = 0;
    let mut start: usize = 0;
    while n - i >= 2
        invariant
            n == path@.len(),
            start <= i <= n,
            segment_start(path@, i as int, start as int) == segment_start(path@, 0, 0),
        decreases n - i,
    {
        if path[i] == ':' && path[i + 1] == ':' {
            i = i + 2;
            start = i;
        } else {
            i = i + 1;
        }
    }
    let mut r: Vec<char> = Vec::new();
    let mut j: usize = start;
    while j < n
        invariant
            n == path@.len(),
            start <= j <= n,
            r@ == path@.subrange(start as int, j as int),
        decreases n - j,
    {
        r.push(path[j]);
        j = j + 1;
    }
    r
}

/// A position of `n` in `s`; the only one where names are unique.
pub open spec fn index_in(s: Seq<Seq<char>>, n: Seq<char>) -> int {
    choose|i: int| 0 <= i < s.len() && s[i] == n
}

/// The abstract state of a page registry.
pub struct PagesModel<F, P> {
    /// The active selector; empty when nothing is selected.
    pub current: Seq<char>,
    /// Registered names, one per registration.
    pub names: Seq<Seq<char>>,
    /// The factories not yet invoked, one per registered name until startup, none after.
    pub factories: Seq<F>,
    /// Names of the live entries.
    pub page_names: Seq<Seq<char>>,
    /// The live instances, in the order of `page_names`.
    pub pages: Seq<P>,
    /// Whether the factories have been invoked.
    pub created: bool,
}

impl<F, P> PagesModel<F, P> {
    pub open spec fn wf(&self) -> bool {
        &&& unique(self.names)
        &&& unique(self.page_names)
        &&& self.page_names.len() == self.pages.len()
        &&& forall|k: int| 0 <= k < self.page_names.len() ==> self.names.contains(#[trigger] self.page_names[k])
        &&& !self.created ==> self.factories.len() == self.names.len() && self.page_names.len() == 0
        &&& self.created ==> self.factories.len() == 0
        &&& self.current.len() == 0 || (if self.created {
            self.page_names.contains(self.current)
        } else {
            self.names.contains(self.current)
        })
        &&& forall|i: int| 0 <= i < self.names.len() ==> (#[trigger] self.names[i]).len() > 0
    }

    /// The registry after `register(name, f)`.
    pub open spec fn registered(self, name: Seq<char>, f: F) -> Self {
        PagesModel {
            current: name,
            names: names_after_register(self.names, name),
            factories: if self.names.contains(name) {
                self.factories.update(index_in(self.names, name), f)
            } else {
                self.factories.push(f)
            },
            ..self
        }
    }

    /// The registry after registering each `(name, factory)` pair of `regs` in order.
    pub open spec fn registered_all(self, regs: Seq<(Seq<char>, F)>) -> Self
        decreases regs.len(),
    {
        if regs.len() == 0 {
            self
        } else {
            self.registered_all(regs.drop_last()).registered(regs.last().0, regs.last().1)
        }
    }

    /// The registry after pointing the selector at each name of `ns` in order.
    pub open spec fn selected_all(self, ns: Seq<Seq<char>>) -> Self
        decreases ns.len(),
    {
        if ns.len() == 0 {
            self
        } else {
            self.selected_all(ns.drop_last()).selected(ns.last())
        }
    }

    /// The live entry that the selector names, if any.
    pub open spec fn active(self) -> Option<P> {
        if self.has_active() {
            Some(self.pages[index_in(self.page_names, self.current)])
        } else {
            None
        }
    }

    /// Whether an entry named by the selector is live.
    pub open spec fn has_active(&self) -> bool {
        self.page_names.contains(self.current)
    }

    /// The registry after the selector was pointed at `name`, if `name` is live.
    pub open spec fn selected(self, name: Seq<char>) -> Self {
        if self.page_names.contains(name) {
            PagesModel { current: name, ..self }
        } else {
            self
        }
    }

    /// The relation between a registry before and after its factories were invoked, where
    /// `built(f, r)` holds when invoking factory `f` may give `r`.
    pub open spec fn instantiated_to(
        self,
        after: Self,
        built: spec_fn(F, Option<P>) -> bool,
    ) -> bool {
        &&& after.created
        &&& after.names == self.names
        &&& after.factories.len() == 0
        &&& forall|k: int|
            0 <= k < after.page_names.len() ==> exists|i: int|
                0 <= i < self.names.len() && self.names[i] == #[trigger] after.page_names[k]
                    && built(#[trigger] self.factories[i], Some(after.pages[k]))
        &&& forall|i: int|
            0 <= i < self.names.len() && !after.page_names.contains(#[trigger] self.names[i])
                ==> built(self.factories[i], None)
        &&& after.current == (if after.page_names.contains(self.current) {
            self.current
        } else {
            Seq::empty()
        })
    }
}

/// The page registry: named factories registered before the device context exists, and
/// the live entries they built once it does, with one of them selected as active.
pub struct Pages<F, P> {
    current: String,
    names: Vec<String>,
    factories: Vec<F>,
    page_names: Vec<String>,
    pages: Vec<P>,
    created: bool,
}

impl<F, P> View for Pages<F, P> {
    type V = PagesModel<F, P>;

    closed spec fn view(&self) -> PagesModel<F, P> {
        PagesModel {
            current: self.current@,
            names: keys(self.names@),
            factories: self.factories@,
            page_names: keys(self.page_names@),
            pages: self.pages@,
            created: self.created,
        }
    }
}

/// Finds the position of `s` in `v`.
fn find(v: &Vec<String>, s: &String) -> (r: Option<usize>)
    ensures
        match r {
            Some(i) => i < v@.len() && v@[i as int]@ == s@,
            None => !keys(v@).contains(s@),
        },
{
    let mut i: usize = 0;
    while i < v.len()
        invariant
            i <= v@.len(),
            forall|j: int| 0 <= j < i ==> v@[j]@ != s@,
        decreases v@.len() - i,
    {
        if v[i] == *s {
            return Some(i);
        }
        i = i + 1;
    }
    proof {
        if keys(v@).contains(s@) {
            let j = choose|j: int| 0 <= j < keys(v@).len() && keys(v@)[j] == s@;
            assert(v@[j]@ == s@);
        }
    }
    None
}

impl<F, P> Pages<F, P> {
    /// An empty registry: nothing registered, nothing selected.
    pub fn new() -> (r: Self)
        ensures
            r@.wf(),
            r@.current.len() == 0,
            r@.names.len() == 0,
            r@.page_names.len() == 0,
            !r@.created,
    {
        let r = Pages {
            current: String::new(),
            names: Vec::new(),
            factories: Vec::new(),
            page_names: Vec::new(),
            pages: Vec::new(),
            created: false,
        };
        proof {
            assert(keys(r.names@) =~= Seq::empty());
            assert(keys(r.page_names@) =~= Seq::empty());
        }
        r
    }

    /// Registers a factory under `name` and selects `name`. A name registered before keeps its
    /// place and has its factory replaced.
    pub fn register(&mut self, name: String, factory: F)
        requires
            old(self)@.wf(),
            !old(self)@.created,
            name@.len() > 0,
        ensures
            final(self)@.wf(),
            !final(self)@.created,
            final(self)@ == old(self)@.registered(name@, factory),
    {
        let ghost old_names = self.names@;
        let ghost f = factory;
        match find(&self.names, &name) {
            Some(i) => {
                self.factories.set(i, factory);
                proof {
                    assert(keys(old_names).contains(name@)) by {
                        assert(keys(old_names)[i as int] == name@);
                    }
                    let j = index_in(keys(old_names), name@);
                    assert(keys(old_names)[i as int] == name@);
                    assert(j == i);
                }
            },
            None => {
                self.names.push(name.clone());
                self.factories.push(factory);
                proof {
                    assert(keys(self.names@) =~= keys(old_names).push(name@));
                    let n = keys(self.names@);
                    assert(n[n.len() - 1] == name@);
                    assert forall|a: int, b: int|
                        0 <= a < n.len() && 0 <= b < n.len() && a != b implies n[a] != n[b] by {
                        if a == n.len() - 1 {
                            assert(keys(old_names)[b] == n[b]);
                        } else if b == n.len() - 1 {
                            assert(keys(old_names)[a] == n[a]);
                        }
                    }
                }
            },
        }
        self.current = name;
        proof {
            assert(self@.factories =~= old(self)@.registered(name@, f).factories);
            assert(self@.names.contains(name@)) by {
                let k = choose|k: int| 0 <= k < self.names@.len() && self.names@[k]@ == name@;
                assert(self@.names[k] == name@);
            }
        }
    }

    /// Invokes every registered factory once, through `build`, keeping the instances it gives
    /// as live entries. A factory that gives nothing leaves its name without an entry; the
    /// others proceed. A selector naming no live entry is cleared.
    pub fn instantiate_all<B: Fn(F) -> Option<P>>(&mut self, build: B)
        requires
            old(self)@.wf(),
            !old(self)@.created,
            forall|f: F| build.requires((f,)),
        ensures
            final(self)@.wf(),
            old(self)@.instantiated_to(final(self)@, |f: F, r: Option<P>| build.ensures((f,), r)),
    {
        let ghost old_v = self@;
        let ghost mut idx: Seq<int> = Seq::empty();
        while self.factories.len() > 0
            invariant
                old_v.wf(),
                !old_v.created,
                keys(self.names@) == old_v.names,
                self.current@ == old_v.current,
                !self.created,
                self.factories@.len() <= old_v.factories.len(),
                self.factories@ == old_v.factories.take(self.factories@.len() as int),
                self.page_names@.len() == idx.len(),
                self.pages@.len() == idx.len(),
                forall|f: F| build.requires((f,)),
                forall|k: int|
                    0 <= k < idx.len() ==> self.factories@.len() <= #[trigger] idx[k] < old_v.names.len()
                        && self.page_names@[k]@ == old_v.names[idx[k]]
                        && build.ensures((old_v.factories[idx[k]],), Some(self.pages@[k])),
                forall|a: int, b: int| 0 <= a < b < idx.len() ==> #[trigger] idx[a] > #[trigger] idx[b],
                forall|i: int|
                    self.factories@.len() <= i < old_v.names.len() ==> (exists|k: int|
                        0 <= k < idx.len() && #[trigger] idx[k] == i) || build.ensures(
                        (#[trigger] old_v.factories[i],),
                        None,
                    ),
            decreases self.factories@.len(),
        {
            let f = self.factories.pop().unwrap();
            let i = self.factories.len();
            proof {
                assert(f == old_v.factories[i as int]);
                assert(keys(self.names@)[i as int] == old_v.names[i as int]);
            }
            let ghost old_idx = idx;
            let r = build(f);
            proof {
                assert(build.ensures((old_v.factories[i as int],), r));
            }
            match r {
                Some(p) => {
                    let n = self.names[i].clone();
                    self.page_names.push(n);
                    self.pages.push(p);
                    proof {
                        idx = idx.push(i as int);
                        assert(idx[idx.len() - 1] == i);
                    }
                },
                None => {},
            }
            proof {
                assert forall|j: int|
                    self.factories@.len() <= j < old_v.names.len() implies (exists|k: int|
                        0 <= k < idx.len() && #[trigger] idx[k] == j) || build.ensures(
                        (#[trigger] old_v.factories[j],),
                        None,
                    ) by {
                    if j == i {
                        if r.is_some() {
                            assert(idx[idx.len() - 1] == j);
                        }
                    } else if exists|k: int| 0 <= k < old_idx.len() && #[trigger] old_idx[k] == j {
                        let k = choose|k: int| 0 <= k < old_idx.len() && #[trigger] old_idx[k] == j;
                        assert(idx[k] == j);
                    }
                }
            }
        }
        self.created = true;
        proof {
            let pn = keys(self.page_names@);
            assert forall|a: int, b: int|
                0 <= a < pn.len() && 0 <= b < pn.len() && a != b implies pn[a] != pn[b] by {
                assert(idx[a] != idx[b]);
                assert(pn[a] == old_v.names[idx[a]]);
                assert(pn[b] == old_v.names[idx[b]]);
            }
            assert forall|k: int| 0 <= k < pn.len() implies old_v.names.contains(#[trigger] pn[k]) by {
                assert(old_v.names[idx[k]] == pn[k]);
            }
        }
        match find(&self.page_names, &self.current) {
            Some(k) => {
                proof {
                    assert(keys(self.page_names@)[k as int] == self.current@);
                }
            },
            None => {
                self.current = String::new();
            },
        }
        proof {
            let built = |f: F, r: Option<P>| build.ensures((f,), r);
            let a = self@;
            assert(a.names == old_v.names);
            assert(unique(a.names));
            assert(unique(a.page_names));
            assert(a.factories.len() == 0);
            assert(a.current.len() == 0 || a.page_names.contains(a.current));
            assert(forall|k: int| 0 <= k < a.page_names.len() ==> a.names.contains(#[trigger] a.page_names[k]));
            assert(forall|i: int| 0 <= i < a.names.len() ==> (#[trigger] a.names[i]).len() > 0);
            assert(a.wf());
            assert forall|k: int| 0 <= k < a.page_names.len() implies exists|i: int|
                0 <= i < old_v.names.len() && old_v.names[i] == #[trigger] a.page_names[k]
                    && built(#[trigger] old_v.factories[i], Some(a.pages[k])) by {
                assert(old_v.names[idx[k]] == a.page_names[k]);
                assert(built(old_v.factories[idx[k]], Some(a.pages[k])));
            }
            assert forall|i: int|
                0 <= i < old_v.names.len() && !a.page_names.contains(#[trigger] old_v.names[i])
                    implies built(old_v.factories[i], None) by {
                if exists|k: int| 0 <= k < idx.len() && #[trigger] idx[k] == i {
                    let k = choose|k: int| 0 <= k < idx.len() && #[trigger] idx[k] == i;
                    assert(a.page_names[k] == old_v.names[i]);
                }
            }
        }
    }

    /// The live entry that the selector names, or `None` when the selector is empty or names
    /// no live entry.
    pub fn active_entry(&self) -> (r: Option<&P>)
        requires
            self@.wf(),
        ensures
            r == match self@.active() {
                Some(p) => Some(&p),
                None => None::<&P>,
            },
    {
        match find(&self.page_names, &self.current) {
            Some(k) => {
                proof {
                    let pn = self@.page_names;
                    assert(pn[k as int] == self@.current);
                    assert(index_in(pn, self@.current) == k);
                }
                Some(&self.pages[k])
            },
            None => None,
        }
    }

    /// Points the selector at `name` if an entry of that name is live; returns whether it did.
    /// No entry is built or dropped.
    pub fn select(&mut self, name: &String) -> (r: bool)
        requires
            old(self)@.wf(),
        ensures
            final(self)@.wf(),
            r == old(self)@.page_names.contains(name@),
            final(self)@ == old(self)@.selected(name@),
    {
        match find(&self.page_names, name) {
            Some(k) => {
                self.current = name.clone();
                proof {
                    assert(self@.page_names[k as int] == name@);
                    assert(self@.names.contains(name@));
                }
                true
            },
            None => false,
        }
    }

    /// The name that the selector holds; empty when nothing is selected.
    pub fn current(&self) -> (r: &String)
        ensures
            r@ == self@.current,
    {
        &self.current
    }

    /// The names of the live entries, as the page picker lists them.
    pub fn page_names(&self) -> (r: &Vec<String>)
        ensures
            keys(r@) == self@.page_names,
    {
        &self.page_names
    }

    /// The registered names, one per registration.
    pub fn registered_names(&self) -> (r: &Vec<String>)
        ensures
            keys(r@) == self@.names,
    {
        &self.names
    }

    /// The live entries, in the order of `page_names`.
    pub fn entries(&self) -> (r: &Vec<P>)
        ensures
            r@ == self@.pages,
    {
        &self.pages
    }

    /// Whether the factories have been invoked.
    pub fn is_created(&self) -> (r: bool)
        ensures
            r == self@.created,
    {
        self.created
    }
}

/// Registering pages under distinct names and then building each of them successfully leaves
/// the page registered last as the active entry.
pub proof fn lemma_last_registered_is_active<F, P>(
    start: PagesModel<F, P>,
    regs: Seq<(Seq<char>, F)>,
    after: PagesModel<F, P>,
    built: spec_fn(F, Option<P>) -> bool,
)
    requires
        start.wf(),
        !start.created,
        regs.len() > 0,
        forall|i: int, j: int|
            0 <= i < regs.len() && 0 <= j < regs.len() && i != j ==> regs[i].0 != regs[j].0,
        start.registered_all(regs).instantiated_to(after, built),
        forall|i: int| 0 <= i < after.names.len() ==> after.page_names.contains(#[trigger] after.names[i]),
    ensures
        after.current == regs.last().0,
        after.active() == Some(after.pages[index_in(after.page_names, regs.last().0)]),
{
    let mid = start.registered_all(regs);
    let n = regs.last().0;
    assert(mid.current == n);
    assert(mid.names.contains(n)) by {
        let prev = start.registered_all(regs.drop_last()).names;
        if !prev.contains(n) {
            assert(prev.push(n)[prev.len() as int] == n);
        }
    }
    let i = choose|i: int| 0 <= i < mid.names.len() && mid.names[i] == n;
    assert(after.names[i] == n);
    assert(after.page_names.contains(n));
}

/// Switching the selector any number of times, after startup, builds and drops no entry, and
/// leaves no factory to invoke again.
pub proof fn lemma_switching_keeps_entries<F, P>(
    before: PagesModel<F, P>,
    after: PagesModel<F, P>,
    built: spec_fn(F, Option<P>) -> bool,
    ns: Seq<Seq<char>>,
)
    requires
        before.instantiated_to(after, built),
    ensures
        after.selected_all(ns).pages == after.pages,
        after.selected_all(ns).page_names == after.page_names,
        after.selected_all(ns).names == after.names,
        after.selected_all(ns).factories.len() == 0,
        after.selected_all(ns).created,
    decreases ns.len(),
{
    if ns.len() > 0 {
        lemma_switching_keeps_entries(before, after, built, ns.drop_last());
    }
}

} // verus!
