//! The router: a tree of named modules whose leaves are handlers, addressed
//! by dotted paths.

use crate::path::{
    dot_free, dotted, dotted_each, first_dot, join_dots, join_each, lemma_dotted, lemma_join_split,
    lemma_split_join, lemma_split_parts, lemma_undotted, split, split_dots,
};
use crate::server::entries::{
    distinct_names, entry_of, lemma_entry_at, lemma_entry_push, lemma_entry_update, position, Entry,
};
use vstd::prelude::*;
use vstd::seq_lib::lemma_no_dup_in_concat;

verus! {

/// No two of `entries` share a name, and no name holds a dot.
spec fn proper_names<T>(entries: Seq<Entry<T>>) -> bool {
    &&& distinct_names(entries)
    &&& forall|k: int| 0 <= k < entries.len() ==> dot_free((#[trigger] entries[k]).name@)
}

/// Every name has at least one character.
pub open spec fn no_empty_name(names: Seq<Seq<char>>) -> bool {
    forall|k: int| 0 <= k < names.len() ==> (#[trigger] names[k]).len() > 0
}

/// The names of `entries`, in their order.
fn names<T>(entries: &Vec<Entry<T>>) -> (out: Vec<String>)
    ensures
        out.deep_view() == Seq::new(entries.len() as nat, |k: int| entries[k].name@),
{
    let mut out: Vec<String> = Vec::new();
    let mut k: usize = 0;
    while k < entries.len()
        invariant
            k <= entries.len(),
            out.len() == k,
            forall|u: int| 0 <= u < k ==> out[u]@ == entries[u].name@,
        decreases entries.len() - k,
    {
        out.push(entries[k].name.clone());
        k += 1;
    }
    assert(out.deep_view() =~= Seq::new(entries.len() as nat, |k: int| entries[k].name@));
    out
}

/// A node of the router. It owns its handlers, of type `H`, and its
/// submodules, each under a name without a dot.
pub struct Module<H> {
    modules: Vec<Entry<Module<H>>>,
    handlers: Vec<Entry<H>>,
}

impl<H> Module<H> {
    /// The invariant of the tree: in every module the handlers' names are
    /// distinct and dot-free, and so are the submodules' names.
    pub closed spec fn wf(&self) -> bool
        decreases self,
    {
        &&& proper_names(self.handlers@)
        &&& proper_names(self.modules@)
        &&& forall|k: int|
            0 <= k < self.modules.len() ==> (#[trigger] self.modules[k]).item.wf()
    }

    /// The handler registered under the path made of `names`, outermost
    /// module first and the handler's own name last.
    pub closed spec fn registered(&self, names: Seq<Seq<char>>) -> Option<H>
        decreases names.len(),
    {
        if names.len() == 0 {
            None
        } else if names.len() == 1 {
            entry_of(self.handlers@, names[0])
        } else {
            match entry_of(self.modules@, names[0]) {
                Some(child) => child.registered(names.drop_first()),
                None => None,
            }
        }
    }

    /// The handler that a lookup of `names` reaches: the one registered
    /// under them, unless one of the names is empty.
    pub open spec fn resolve(&self, names: Seq<Seq<char>>) -> Option<H> {
        if no_empty_name(names) {
            self.registered(names)
        } else {
            None
        }
    }

    /// The handler that serves the dotted `path`.
    pub open spec fn serves(&self, path: Seq<char>) -> Option<H> {
        self.resolve(split_dots(path))
    }

    /// Putting `child` in the place of the submodule at `at` changes what is
    /// registered below that submodule's name and nothing else.
    proof fn lemma_put(self, at: int, child: Self, after: Self)
        requires
            self.wf(),
            0 <= at < self.modules.len(),
            after.handlers@ == self.handlers@,
            after.modules@.len() == self.modules.len(),
            after.modules[at].name@ == self.modules[at].name@,
            after.modules[at].item == child,
            forall|k: int|
                0 <= k < self.modules.len() && k != at ==> after.modules[k] == self.modules[k],
        ensures
            child.wf() ==> after.wf(),
            forall|names: Seq<Seq<char>>| #[trigger]
                after.registered(names) == if names.len() >= 2 && names[0]
                    == self.modules[at].name@ {
                    child.registered(names.drop_first())
                } else {
                    self.registered(names)
                },
    {
        let changed = after.modules[at];
        lemma_entry_update(self.modules@, at, changed);
        assert(after.modules@ =~= self.modules@.update(at, changed));
        if child.wf() {
            assert forall|k: int| 0 <= k < after.modules.len() implies (
            #[trigger] after.modules[k]).item.wf() by {
                if k != at {
                    assert(after.modules[k] == self.modules[k]);
                }
            }
        }
    }

    /// `path` is registered in this module itself, or below one of its
    /// first `upto` submodules.
    spec fn listed(&self, path: Seq<char>, upto: int) -> bool {
        if dot_free(path) {
            entry_of(self.handlers@, path) is Some
        } else {
            exists|m: int|
                0 <= m < upto && m < self.modules.len() && (#[trigger] self.modules[m]).name@
                    == path.take(first_dot(path)) && self.modules[m].item.registered(
                    split_dots(path.skip(first_dot(path) + 1)),
                ) is Some
        }
    }

    /// Once all submodules are counted, the listed paths are the registered
    /// ones.
    proof fn lemma_listed_all(self, path: Seq<char>)
        requires
            self.wf(),
        ensures
            self.listed(path, self.modules.len() as int) <==> self.registered(split_dots(path))
                is Some,
    {
        lemma_split_parts(path);
        if !dot_free(path) {
            lemma_undotted(path);
            let head = path.take(first_dot(path));
            let rest = path.skip(first_dot(path) + 1);
            lemma_split_parts(rest);
            let parts = split_dots(path);
            assert(parts.drop_first() =~= split_dots(rest));
            if self.listed(path, self.modules.len() as int) {
                let m = choose|m: int|
                    0 <= m < self.modules.len() && (#[trigger] self.modules[m]).name@ == head
                        && self.modules[m].item.registered(split_dots(rest)) is Some;
                lemma_entry_at(self.modules@, m);
            }
            if self.registered(parts) is Some {
                let k = choose|k: int| 0 <= k < self.modules.len() && self.modules[k].name@ == head;
                lemma_entry_at(self.modules@, k);
                assert(self.modules[k].name@ == head);
            }
        }
    }

    /// The handlers' own names are the paths listed before any submodule
    /// is counted.
    proof fn lemma_listed_own(self, own: Seq<Seq<char>>)
        requires
            self.wf(),
            own == Seq::new(self.handlers.len() as nat, |k: int| self.handlers[k].name@),
        ensures
            own.no_duplicates(),
            forall|path: Seq<char>| own.contains(path) <==> self.listed(path, 0),
    {
        assert forall|path: Seq<char>| own.contains(path) <==> self.listed(path, 0) by {
            if own.contains(path) {
                let k = choose|k: int| 0 <= k < own.len() && own[k] == path;
                assert(dot_free(self.handlers[k].name@));
                lemma_entry_at(self.handlers@, k);
            }
            if self.listed(path, 0) {
                let k = choose|k: int|
                    0 <= k < self.handlers.len() && self.handlers[k].name@ == path;
                assert(own[k] == path);
            }
        }
    }

    /// Counting one more submodule adds its paths, each below the
    /// submodule's name, and none of them was listed before.
    proof fn lemma_listed_step(
        self,
        j: int,
        have: Seq<Seq<char>>,
        below: Seq<Seq<char>>,
        more: Seq<Seq<char>>,
    )
        requires
            self.wf(),
            0 <= j < self.modules.len(),
            have.no_duplicates(),
            forall|path: Seq<char>| have.contains(path) <==> self.listed(path, j),
            below.no_duplicates(),
            forall|path: Seq<char>|
                below.contains(path) <==> self.modules[j].item.registered(split_dots(path))
                    is Some,
            more == dotted_each(self.modules[j].name@, below),
        ensures
            (have + more).no_duplicates(),
            forall|path: Seq<char>| (have + more).contains(path) <==> self.listed(path, j + 1),
    {
        let prefix = self.modules[j].name@;
        let child = self.modules[j].item;
        assert(dot_free(prefix));
        assert forall|a: int, b: int|
            0 <= a < more.len() && 0 <= b < more.len() && a != b implies more[a] != more[b] by {
            lemma_dotted(prefix, below[a]);
            lemma_dotted(prefix, below[b]);
        }
        assert forall|a: int, t: int| 0 <= a < have.len() && 0 <= t < more.len() implies have[a]
            != more[t] by {
            if have[a] == more[t] {
                lemma_dotted(prefix, below[t]);
                assert(have.contains(more[t]));
                let m = choose|m: int|
                    0 <= m < j && m < self.modules.len() && (#[trigger] self.modules[m]).name@
                        == prefix;
                assert(self.modules[m].name@ != self.modules[j].name@);
            }
        }
        lemma_no_dup_in_concat(have, more);
        let all = have + more;
        assert forall|path: Seq<char>| all.contains(path) <==> self.listed(path, j + 1) by {
            let head = path.take(first_dot(path));
            let rest = path.skip(first_dot(path) + 1);
            if all.contains(path) {
                let k = choose|k: int| 0 <= k < all.len() && all[k] == path;
                if k < have.len() {
                    assert(have[k] == path);
                    assert(have.contains(path));
                    if !dot_free(path) {
                        let m = choose|m: int|
                            0 <= m < j && m < self.modules.len() && (
                            #[trigger] self.modules[m]).name@ == head
                                && self.modules[m].item.registered(split_dots(rest)) is Some;
                        assert(m < j + 1);
                    }
                } else {
                    let t = k - have.len();
                    assert(more[t] == path);
                    lemma_dotted(prefix, below[t]);
                    assert(below.contains(below[t]));
                    assert(self.modules[j].name@ == head);
                }
            }
            if self.listed(path, j + 1) {
                if dot_free(path) {
                    assert(have.contains(path));
                    let a = choose|a: int| 0 <= a < have.len() && have[a] == path;
                    assert(all[a] == path);
                } else {
                    let m = choose|m: int|
                        0 <= m < j + 1 && m < self.modules.len() && (
                        #[trigger] self.modules[m]).name@ == head
                            && self.modules[m].item.registered(split_dots(rest)) is Some;
                    if m < j {
                        assert(self.listed(path, j));
                        assert(have.contains(path));
                        let a = choose|a: int| 0 <= a < have.len() && have[a] == path;
                        assert(all[a] == path);
                    } else {
                        assert(below.contains(rest));
                        let t = choose|t: int| 0 <= t < below.len() && below[t] == rest;
                        lemma_undotted(path);
                        assert(more[t] == path);
                        assert(all[have.len() + t] == path);
                    }
                }
            }
        }
    }

    /// What is registered stands under one name at least, and under names
    /// without dots.
    pub proof fn lemma_registered_names(self, names: Seq<Seq<char>>)
        requires
            self.wf(),
            self.registered(names) is Some,
        ensures
            names.len() >= 1,
            forall|k: int| 0 <= k < names.len() ==> dot_free(#[trigger] names[k]),
        decreases names.len(),
    {
        if names.len() == 1 {
            let k = choose|k: int|
                0 <= k < self.handlers.len() && self.handlers[k].name@ == names[0];
            assert(dot_free(self.handlers[k].name@));
        } else {
            let k = choose|k: int| 0 <= k < self.modules.len() && self.modules[k].name@ == names[0];
            lemma_entry_at(self.modules@, k);
            assert(dot_free(self.modules[k].name@));
            let rest = names.drop_first();
            self.modules[k].item.lemma_registered_names(rest);
            assert forall|i: int| 0 <= i < names.len() implies dot_free(#[trigger] names[i]) by {
                if i > 0 {
                    assert(names[i] == rest[i - 1]);
                }
            }
        }
    }

    /// A lookup finds what was registered: the handler registered under
    /// `names`, none of them empty, serves the dotted path made of them,
    /// and that path is the one under which the handler is listed.
    pub proof fn lemma_lookup_registered(self, names: Seq<Seq<char>>)
        requires
            self.wf(),
            self.registered(names) is Some,
            no_empty_name(names),
        ensures
            split_dots(join_dots(names)) == names,
            self.serves(join_dots(names)) == self.registered(names),
    {
        self.lemma_registered_names(names);
        lemma_split_join(names);
    }

    /// What serves a path is registered under the components of that path.
    pub proof fn lemma_serves_registered(self, path: Seq<char>)
        requires
            self.serves(path) is Some,
        ensures
            self.serves(path) == self.registered(split_dots(path)),
            join_dots(split_dots(path)) == path,
    {
        lemma_join_split(path);
    }

    /// An empty module.
    pub fn new() -> (module: Self)
        ensures
            module.wf(),
            forall|names: Seq<Seq<char>>| module.registered(names) is None,
    {
        let module = Module { modules: Vec::new(), handlers: Vec::new() };
        assert forall|names: Seq<Seq<char>>| module.registered(names) is None by {
            reveal_with_fuel(Module::registered, 2);
        }
        module
    }

    /// Whether a handler is registered in this module itself under `name`.
    pub fn has_handler(&self, name: &str) -> (present: bool)
        requires
            self.wf(),
        ensures
            present == (self.registered(seq![name@]) is Some),
    {
        let name = name.to_owned();
        match position(&self.handlers, &name) {
            Some(i) => {
                proof {
                    lemma_entry_at(self.handlers@, i as int);
                }
                true
            },
            None => false,
        }
    }

    /// Registers `handler` in this module under `name`. The name holds no
    /// dot and is not taken by another handler of this module.
    pub fn handle(&mut self, name: &str, handler: H) -> (this: &mut Self)
        requires
            old(self).wf(),
            dot_free(name@),
            old(self).registered(seq![name@]) is None,
        ensures
            this.wf(),
            forall|names: Seq<Seq<char>>| #[trigger]
                this.registered(names) == if names.len() == 1 && names[0] == name@ {
                    Some(handler)
                } else {
                    old(self).registered(names)
                },
            *final(self) == *final(this),
    {
        let entry = Entry { name: name.to_owned(), item: handler };
        proof {
            lemma_entry_push(self.handlers@, entry);
        }
        self.handlers.push(entry);
        self
    }

    /// The submodule `name` of this module, made empty if it was not there.
    /// The name holds no dot. What the caller registers through the
    /// reference stands in this module under `name`.
    pub fn module(&mut self, name: &str) -> (child: &mut Module<H>)
        requires
            old(self).wf(),
            dot_free(name@),
        ensures
            child.wf(),
            forall|names: Seq<Seq<char>>|
                names.len() >= 1 ==> #[trigger] child.registered(names) == old(self).registered(
                    seq![name@] + names,
                ),
            forall|names: Seq<Seq<char>>| #[trigger]
                final(self).registered(names) == if names.len() >= 2 && names[0] == name@ {
                    final(child).registered(names.drop_first())
                } else {
                    old(self).registered(names)
                },
            final(child).wf() ==> final(self).wf(),
    {
        let name = name.to_owned();
        let ghost before = *self;
        let at = match position(&self.modules, &name) {
            Some(i) => i,
            None => {
                let entry = Entry { name, item: Module::new() };
                proof {
                    lemma_entry_push(self.modules@, entry);
                }
                self.modules.push(entry);
                self.modules.len() - 1
            },
        };
        let ghost held = *self;
        proof {
            lemma_entry_at(held.modules@, at as int);
            assert(held.wf());
            assert forall|names: Seq<Seq<char>>| #[trigger]
                held.registered(names) == before.registered(names) by {
                if names.len() >= 2 && names[0] == name@ && entry_of(before.modules@, name@) is None {
                    assert(held.modules[at as int].item.registered(names.drop_first()) is None);
                }
            }
            assert forall|names: Seq<Seq<char>>| names.len() >= 1 implies #[trigger]
                held.modules[at as int].item.registered(names) == before.registered(
                seq![name@] + names,
            ) by {
                assert((seq![name@] + names).drop_first() =~= names);
            }
        }
        let child = &mut self.modules[at].item;
        proof {
            held.lemma_put(at as int, *final(child), after_borrow(*self));
        }
        child
    }

    /// The dotted paths of all handlers registered in this module and below
    /// it, each once, in no particular order.
    pub fn functions(&self) -> (paths: Vec<String>)
        requires
            self.wf(),
        ensures
            paths.deep_view().no_duplicates(),
            forall|path: Seq<char>|
                paths.deep_view().contains(path) <==> self.registered(split_dots(path)) is Some,
        decreases self,
    {
        let mut paths = names(&self.handlers);
        proof {
            self.lemma_listed_own(paths.deep_view());
        }
        let mut j: usize = 0;
        while j < self.modules.len()
            invariant
                self.wf(),
                j <= self.modules.len(),
                paths.deep_view().no_duplicates(),
                forall|path: Seq<char>|
                    paths.deep_view().contains(path) <==> self.listed(path, j as int),
            decreases self.modules.len() - j,
        {
            let below = self.modules[j].item.functions();
            let mut more = join_each(self.modules[j].name.as_str(), &below);
            let ghost have = paths.deep_view();
            let ghost added = more.deep_view();
            proof {
                self.lemma_listed_step(j as int, have, below.deep_view(), added);
            }
            paths.append(&mut more);
            assert(paths.deep_view() =~= have + added);
            j += 1;
        }
        proof {
            assert forall|path: Seq<char>|
                paths.deep_view().contains(path) <==> self.registered(split_dots(path))
                    is Some by {
                self.lemma_listed_all(path);
            }
        }
        paths
    }

    /// Looks up the handler that serves the dotted `path`. The lookup
    /// creates nothing, and a path with an empty component reaches nothing.
    pub fn lookup(&self, path: &str) -> (found: Option<&H>)
        requires
            self.wf(),
        ensures
            match found {
                Some(handler) => self.serves(path@) == Some(*handler),
                None => self.serves(path@) is None,
            },
    {
        let parts = split(path);
        self.lookup_parts(parts.as_slice())
    }

    /// Walks the modules named by all but the last of `parts` and returns
    /// the handler under the last one.
    pub fn lookup_parts(&self, parts: &[String]) -> (found: Option<&H>)
        requires
            self.wf(),
        ensures
            match found {
                Some(handler) => self.resolve(parts.deep_view()) == Some(*handler),
                None => self.resolve(parts.deep_view()) is None,
            },
        decreases parts.len(),
    {
        let ghost names = parts.deep_view();
        if parts.len() == 0 {
            return None;
        }
        assert(names[0] == parts[0]@);
        if parts[0].as_str().is_empty() {
            return None;
        }
        if parts.len() == 1 {
            match position(&self.handlers, &parts[0]) {
                Some(i) => {
                    proof {
                        lemma_entry_at(self.handlers@, i as int);
                    }
                    Some(&self.handlers[i].item)
                },
                None => None,
            }
        } else {
            match position(&self.modules, &parts[0]) {
                Some(i) => {
                    let rest = &parts[1..parts.len()];
                    proof {
                        lemma_entry_at(self.modules@, i as int);
                        assert(rest.deep_view() =~= names.drop_first());
                        assert(no_empty_name(names) <==> no_empty_name(names.drop_first())) by {
                            if no_empty_name(names) {
                                assert forall|k: int|
                                    0 <= k < names.drop_first().len() implies (
                                #[trigger] names.drop_first()[k]).len() > 0 by {
                                    assert(names[k + 1].len() > 0);
                                }
                            }
                            if no_empty_name(names.drop_first()) {
                                assert forall|k: int| 0 <= k < names.len() implies (
                                #[trigger] names[k]).len() > 0 by {
                                    if k > 0 {
                                        assert(names.drop_first()[k - 1].len() > 0);
                                    }
                                }
                            }
                        }
                    }
                    self.modules[i].item.lookup_parts(rest)
                },
                None => None,
            }
        }
    }
}

} // verus!
