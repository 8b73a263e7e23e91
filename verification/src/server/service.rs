//! Service modules: a tree of named services. A module may have a handler
//! of its own and submodules under names; one that never got a submodule
//! is a leaf.

use crate::named::{lemma_position, lemma_position_at, member, position};
use crate::path::{dotted_each, join_each, split, split_dots};
use crate::server::entries::{distinct_names, position as place, Entry};
use crate::util::same_text;
use vstd::prelude::*;

verus! {

/// A node of the tree: its own handler, if it has one, and its submodules,
/// unless it is a leaf.
pub struct ServiceModule<H> {
    handle: Option<H>,
    leaf: bool,
    subs: Vec<Entry<ServiceModule<H>>>,
}

/// The submodules with their names, in their order.
spec fn pairs<H>(entries: Seq<Entry<ServiceModule<H>>>) -> Seq<(Seq<char>, ServiceModule<H>)> {
    Seq::new(entries.len(), |i: int| (entries[i].name@, entries[i].item))
}

/// No two of `subs` share a name.
pub open spec fn distinct<M>(subs: Seq<(Seq<char>, M)>) -> bool {
    forall|a: int, b: int| 0 <= a < b < subs.len() ==> (#[trigger] subs[a]).0 != (#[trigger] subs[b]).0
}

/// `subs` with `module` under `name`: in the place of the submodule of
/// that name, or at the end if there was none.
pub open spec fn put<M>(subs: Seq<(Seq<char>, M)>, name: Seq<char>, module: M) -> Seq<
    (Seq<char>, M),
> {
    let at = position(subs, name);
    if 0 <= at < subs.len() {
        subs.update(at, (name, module))
    } else {
        subs.push((name, module))
    }
}

/// What a search along `parts` comes to, from the submodules `subs` on and
/// with `found` as the handler so far: the handler of the last module, or
/// none if a name leads nowhere. The search cannot pass a leaf: there it
/// has no outcome.
pub open spec fn walk<H>(
    subs: Seq<(Seq<char>, ServiceModule<H>)>,
    parts: Seq<Seq<char>>,
    found: Option<H>,
) -> Option<Option<H>>
    decreases parts.len(),
{
    if parts.len() == 0 {
        Some(found)
    } else {
        match member(subs, parts[0]) {
            None => Some(None),
            Some(module) => match module.subs() {
                None => None,
                Some(next) => walk(next, parts.drop_first(), module.service()),
            },
        }
    }
}

/// The keys of `module` under the name `root`.
spec fn keys_of<H>(module: ServiceModule<H>, root: Seq<char>) -> Seq<Seq<char>>
    decreases module, module.subs.len() + 1,
{
    if module.leaf {
        seq![root]
    } else {
        keys_upto(module, root, module.subs.len() as int)
    }
}

/// The keys of the first `n` submodules of `module`, each below `root`.
spec fn keys_upto<H>(module: ServiceModule<H>, root: Seq<char>, n: int) -> Seq<Seq<char>>
    decreases module, n,
{
    if 0 < n <= module.subs.len() {
        keys_upto(module, root, n - 1) + dotted_each(
            root,
            keys_of(module.subs[n - 1].item, module.subs[n - 1].name@),
        )
    } else {
        Seq::empty()
    }
}

/// The keys of the first `n` of `subs`, each under its own name, each
/// below `root`, in the order of the submodules.
pub open spec fn gathered<H>(
    root: Seq<char>,
    subs: Seq<(Seq<char>, ServiceModule<H>)>,
    n: int,
) -> Seq<Seq<char>>
    decreases n,
{
    if 0 < n <= subs.len() {
        gathered(root, subs, n - 1) + dotted_each(root, subs[n - 1].1.keys(subs[n - 1].0))
    } else {
        Seq::empty()
    }
}

impl<H> ServiceModule<H> {
    /// The module's own handler.
    pub closed spec fn service(&self) -> Option<H> {
        self.handle
    }

    /// The submodules with their names, in their order; none for a leaf.
    pub closed spec fn subs(&self) -> Option<Seq<(Seq<char>, ServiceModule<H>)>> {
        if self.leaf {
            None
        } else {
            Some(pairs(self.subs@))
        }
    }

    /// The invariant of the tree: in no module do two submodules share a
    /// name.
    pub closed spec fn wf(&self) -> bool
        decreases self,
    {
        self.leaf || {
            &&& distinct_names(self.subs@)
            &&& forall|k: int| 0 <= k < self.subs.len() ==> (#[trigger] self.subs[k]).item.wf()
        }
    }

    /// The invariant, over the submodules.
    pub proof fn lemma_wf(self)
        ensures
            self.wf() <==> match self.subs() {
                Some(subs) => distinct(subs) && forall|k: int|
                    0 <= k < subs.len() ==> (#[trigger] subs[k]).1.wf(),
                None => true,
            },
    {
        if !self.leaf {
            let entries = self.subs@;
            let subs = pairs(entries);
            if self.wf() {
                assert forall|a: int, b: int| 0 <= a < b < subs.len() implies (#[trigger] subs[a]).0
                    != (#[trigger] subs[b]).0 by {
                    assert(entries[a].name@ != entries[b].name@);
                }
                assert forall|k: int| 0 <= k < subs.len() implies (#[trigger] subs[k]).1.wf() by {
                    assert(entries[k].item.wf());
                }
            }
            if distinct(subs) && forall|k: int| 0 <= k < subs.len() ==> (#[trigger] subs[k]).1.wf() {
                assert forall|a: int, b: int| 0 <= a < b < entries.len() implies (
                #[trigger] entries[a]).name@ != (#[trigger] entries[b]).name@ by {
                    assert(subs[a].0 != subs[b].0);
                }
                assert forall|k: int| 0 <= k < entries.len() implies (
                #[trigger] entries[k]).item.wf() by {
                    assert(subs[k].1.wf());
                }
            }
        }
    }

    /// The keys of the module when it stands under the name `root`: `root`
    /// itself for a leaf; else the keys of each submodule under its own
    /// name, each below `root`, in the order of the submodules.
    pub closed spec fn keys(&self, root: Seq<char>) -> Seq<Seq<char>> {
        keys_of(*self, root)
    }

    /// The keys, over the submodules.
    pub proof fn lemma_keys(self, root: Seq<char>)
        ensures
            self.keys(root) == match self.subs() {
                None => seq![root],
                Some(subs) => gathered(root, subs, subs.len() as int),
            },
    {
        if !self.leaf {
            self.lemma_keys_upto(root, self.subs.len() as int);
        }
    }

    /// The keys of the first submodules, over the submodules.
    proof fn lemma_keys_upto(self, root: Seq<char>, n: int)
        requires
            0 <= n <= self.subs.len(),
        ensures
            keys_upto(self, root, n) == gathered(root, pairs(self.subs@), n),
        decreases n,
    {
        if n > 0 {
            self.lemma_keys_upto(root, n - 1);
        }
    }

    /// A leaf with the handler `handler`, if any.
    pub fn new(handler: Option<H>) -> (module: Self)
        ensures
            module.service() == handler,
            module.subs() is None,
            module.wf(),
    {
        ServiceModule { handle: handler, leaf: true, subs: Vec::new() }
    }

    /// The keys of the module when it stands under the name `root`.
    pub fn form_keys(&self, root: &str) -> (keys: Option<Vec<String>>)
        ensures
            keys matches Some(keys) && keys.deep_view() == self.keys(root@),
        decreases self,
    {
        let mut keys: Vec<String> = Vec::new();
        if self.leaf {
            keys.push(root.to_owned());
            assert(keys.deep_view() =~= seq![root@]);
            return Some(keys);
        }
        let mut j: usize = 0;
        assert(keys.deep_view() =~= keys_upto(*self, root@, 0));
        while j < self.subs.len()
            invariant
                j <= self.subs.len(),
                keys.deep_view() == keys_upto(*self, root@, j as int),
            decreases self.subs.len() - j,
        {
            let below = match self.subs[j].item.form_keys(self.subs[j].name.as_str()) {
                Some(below) => below,
                None => Vec::new(),
            };
            let mut more = join_each(root, &below);
            let ghost have = keys.deep_view();
            let ghost added = more.deep_view();
            keys.append(&mut more);
            assert(keys.deep_view() =~= have + added);
            j += 1;
        }
        Some(keys)
    }

    /// What `get_handler` finds for `route` when the module stands under
    /// the name `root`: its own handler if the route is that name; else
    /// what a search along the components of the route comes to. There is
    /// no outcome where the search starts at a leaf or has to pass one.
    pub open spec fn found(&self, root: Seq<char>, route: Seq<char>) -> Option<Option<H>> {
        if root == route {
            Some(self.service())
        } else {
            match self.subs() {
                None => None,
                Some(subs) => walk(subs, split_dots(route), None),
            }
        }
    }
}

impl<H: Copy> ServiceModule<H> {
    /// The handler for `route`, when the module stands under the name
    /// `root`: its own handler if the route is that name; else the handler
    /// of the module that the components of the route lead to, one
    /// submodule after the other, or none if a name leads nowhere. The
    /// search does not start at a leaf and does not pass one.
    pub fn get_handler(&self, root: &str, route: &str) -> (handler: Option<H>)
        requires
            self.wf(),
            self.found(root@, route@) is Some,
        ensures
            Some(handler) == self.found(root@, route@),
    {
        if same_text(root, route) {
            return self.handle;
        }
        let parts = split(route);
        if self.leaf {
            return None;
        }
        let mut entries = &self.subs;
        let mut handle: Option<H> = None;
        let mut i: usize = 0;
        assert(parts.deep_view().skip(0) =~= parts.deep_view());
        while i < parts.len()
            invariant
                i <= parts.len(),
                distinct_names(entries@),
                forall|k: int| 0 <= k < entries.len() ==> (#[trigger] entries[k]).item.wf(),
                self.found(root@, route@) is Some,
                walk(pairs(entries@), parts.deep_view().skip(i as int), handle) == self.found(
                    root@,
                    route@,
                ),
            decreases parts.len() - i,
        {
            let ghost subs = pairs(entries@);
            let ghost rest = parts.deep_view().skip(i as int);
            assert(rest[0] == parts[i as int]@);
            assert(rest.drop_first() =~= parts.deep_view().skip(i + 1));
            match place(entries, &parts[i]) {
                None => {
                    proof {
                        lemma_position(subs, parts[i as int]@);
                        if position(subs, parts[i as int]@) < subs.len() {
                            let at = position(subs, parts[i as int]@);
                            assert(entries[at].name@ == subs[at].0);
                        }
                    }
                    return None;
                },
                Some(at) => {
                    proof {
                        assert forall|k: int| 0 <= k < at implies (#[trigger] subs[k]).0
                            != parts[i as int]@ by {
                            assert(entries[k].name@ != entries[at as int].name@);
                        }
                        lemma_position_at(subs, parts[i as int]@, at as int);
                        assert(entries[at as int].item.wf());
                    }
                    let module = &entries[at].item;
                    if module.leaf {
                        return None;
                    }
                    handle = module.handle;
                    entries = &module.subs;
                },
            }
            i += 1;
        }
        handle
    }
}

/// The ways to build a tree of service modules.
pub trait Router<H>: Sized {
    /// Puts `router` under the name `submod`, in the place of the submodule
    /// of that name if there is one.
    fn attach(self, submod: &str, router: Self) -> Self;

    /// Puts a leaf with the handler `handler`, if any, under the name
    /// `submod`, in the place of the submodule of that name if there is
    /// one.
    fn submodule(self, submod: &str, handler: Option<H>) -> Self;

    /// Gives the module the handler `handler`.
    fn handle(self, handler: H) -> Self;
}

impl<H> Router<H> for ServiceModule<H> {
    fn attach(self, submod: &str, router: Self) -> (module: Self)
        ensures
            module.service() == self.service(),
            module.subs() == Some(
                put(
                    match self.subs() {
                        Some(subs) => subs,
                        None => Seq::empty(),
                    },
                    submod@,
                    router,
                ),
            ),
            self.wf() && router.wf() ==> module.wf(),
    {
        let mut entries = if self.leaf {
            Vec::new()
        } else {
            self.subs
        };
        let ghost before = pairs(entries@);
        let ghost old_entries = entries@;
        let name = submod.to_owned();
        let entry = Entry { name, item: router };
        match place(&entries, &entry.name) {
            Some(at) => {
                proof {
                    assert forall|k: int| 0 <= k < at implies (#[trigger] before[k]).0
                        != submod@ by {
                        assert(old_entries[k].name@ != entry.name@);
                    }
                    lemma_position_at(before, submod@, at as int);
                }
                entries.set(at, entry);
                proof {
                    assert(pairs(entries@) =~= put(before, submod@, router));
                    if distinct_names(old_entries) {
                        assert forall|a: int, b: int| 0 <= a < b < entries.len() implies (
                        #[trigger] entries[a]).name@ != (#[trigger] entries[b]).name@ by {
                            assert(old_entries[a].name@ == entries[a].name@);
                            assert(old_entries[b].name@ == entries[b].name@);
                        }
                    }
                }
            },
            None => {
                proof {
                    lemma_position(before, submod@);
                    if position(before, submod@) < before.len() {
                        let at = position(before, submod@);
                        assert(old_entries[at].name@ == before[at].0);
                    }
                }
                entries.push(entry);
                proof {
                    assert(pairs(entries@) =~= put(before, submod@, router));
                }
            },
        }
        proof {
            if self.wf() && router.wf() {
                assert forall|k: int| 0 <= k < entries.len() implies (
                #[trigger] entries[k]).item.wf() by {
                    if entries[k].item != router {
                        assert(old_entries[k].item.wf());
                    }
                }
            }
        }
        ServiceModule { handle: self.handle, leaf: false, subs: entries }
    }

    fn submodule(self, submod: &str, handler: Option<H>) -> (module: Self)
        ensures
            module.service() == self.service(),
            module.subs() matches Some(subs) && exists|leaf: Self|
                leaf.service() == handler && leaf.subs() is None && subs == put(
                    match self.subs() {
                        Some(subs) => subs,
                        None => Seq::empty(),
                    },
                    submod@,
                    leaf,
                ),
            self.wf() ==> module.wf(),
    {
        let leaf = ServiceModule::new(handler);
        self.attach(submod, leaf)
    }

    fn handle(self, handler: H) -> (module: Self)
        ensures
            module.service() == Some(handler),
            module.subs() == self.subs(),
            self.wf() ==> module.wf(),
    {
        let mut module = self;
        module.handle = Some(handler);
        module
    }
}

} // verus!
