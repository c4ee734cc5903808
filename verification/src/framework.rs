use vstd::prelude::*;
use crate::hook::{Hook, HookOutcome, FrameworkInfo, hook_total};
use crate::hostmgr::HostMgr;
use crate::module::Module;
use crate::naming::{candidate, spec_candidate, lemma_candidate_injective};

verus! {

/// The sequence of string views of a sequence of strings.
pub open spec fn views_of(s: Seq<String>) -> Seq<Seq<char>> {
    Seq::new(s.len(), |i: int| s[i]@)
}

/// A name occurs as a key of the association sequence.
pub open spec fn contains_name<V>(s: Seq<(String, V)>, name: Seq<char>) -> bool {
    exists|i: int| 0 <= i < s.len() && s[i].0@ == name
}

/// No two entries of the association sequence share a key.
pub open spec fn keys_unique<V>(s: Seq<(String, V)>) -> bool {
    forall|i: int, j: int| 0 <= i < j < s.len() ==> s[i].0@ != s[j].0@
}

/// The association sequence read as a map; a later entry for the same
/// key shadows an earlier one (the registries never hold two).
pub open spec fn assoc_map<V>(s: Seq<(String, V)>) -> Map<Seq<char>, V>
    decreases s.len(),
{
    if s.len() == 0 {
        Map::empty()
    } else {
        assoc_map(s.drop_last()).insert(s.last().0@, s.last().1)
    }
}

pub proof fn lemma_assoc_map_contains<V>(s: Seq<(String, V)>, name: Seq<char>)
    ensures
        assoc_map(s).contains_key(name) <==> contains_name(s, name),
    decreases s.len(),
{
    if s.len() > 0 {
        lemma_assoc_map_contains(s.drop_last(), name);
        if contains_name(s, name) {
            let i = choose|i: int| 0 <= i < s.len() && s[i].0@ == name;
            if i < s.len() - 1 {
                assert(s.drop_last()[i].0@ == name);
                assert(contains_name(s.drop_last(), name));
            }
        }
        if contains_name(s.drop_last(), name) {
            let i = choose|i: int| 0 <= i < s.drop_last().len() && s.drop_last()[i].0@ == name;
            assert(s[i].0@ == name);
        }
    }
}

pub proof fn lemma_assoc_map_index<V>(s: Seq<(String, V)>, i: int)
    requires
        keys_unique(s),
        0 <= i < s.len(),
    ensures
        assoc_map(s).contains_key(s[i].0@),
        assoc_map(s)[s[i].0@] == s[i].1,
    decreases s.len(),
{
    if i < s.len() - 1 {
        assert(s.drop_last()[i] == s[i]);
        lemma_assoc_map_index(s.drop_last(), i);
    }
}

pub proof fn lemma_assoc_map_remove<V>(s: Seq<(String, V)>, i: int)
    requires
        keys_unique(s),
        0 <= i < s.len(),
    ensures
        assoc_map(s.remove(i)) == assoc_map(s).remove(s[i].0@),
    decreases s.len(),
{
    if i == s.len() - 1 {
        lemma_assoc_map_contains(s.drop_last(), s[i].0@);
        assert(s.remove(i) =~= s.drop_last());
        assert(assoc_map(s).remove(s[i].0@) =~= assoc_map(s.drop_last()));
    } else {
        assert(s.remove(i).drop_last() =~= s.drop_last().remove(i));
        assert(s.remove(i).last() == s.last());
        assert(s.drop_last()[i] == s[i]);
        lemma_assoc_map_remove(s.drop_last(), i);
        assert(assoc_map(s.remove(i)) == assoc_map(s.drop_last()).remove(s[i].0@).insert(
            s.last().0@,
            s.last().1,
        ));
        assert(assoc_map(s).remove(s[i].0@) =~= assoc_map(s.drop_last()).remove(s[i].0@).insert(
            s.last().0@,
            s.last().1,
        ));
    }
}

/// Pairwise-distinct names, each a key of an association sequence with
/// unique keys, cannot outnumber its entries.
proof fn lemma_distinct_names_bound<V>(s: Seq<(String, V)>, cands: Seq<Seq<char>>)
    requires
        keys_unique(s),
        forall|x: int, y: int| 0 <= x < y < cands.len() ==> cands[x] != cands[y],
        forall|x: int| 0 <= x < cands.len() ==> contains_name(s, cands[x]),
    ensures
        cands.len() <= s.len(),
    decreases cands.len(),
{
    if cands.len() > 0 {
        let lastc = cands.last();
        let k = choose|k: int| 0 <= k < s.len() && s[k].0@ == lastc;
        let s2 = s.remove(k);
        assert forall|i: int, j: int| 0 <= i < j < s2.len() implies s2[i].0@ != s2[j].0@ by {
            assert(s2[i] == (if i < k {
                s[i]
            } else {
                s[i + 1]
            }));
            assert(s2[j] == (if j < k {
                s[j]
            } else {
                s[j + 1]
            }));
        }
        assert forall|x: int| 0 <= x < cands.drop_last().len() implies contains_name(
            s2,
            cands.drop_last()[x],
        ) by {
            let c = cands[x];
            assert(contains_name(s, c));
            let i = choose|i: int| 0 <= i < s.len() && s[i].0@ == c;
            assert(c != lastc);
            assert(i != k);
            if i < k {
                assert(s2[i].0@ == c);
            } else {
                assert(s2[i - 1].0@ == c);
            }
        }
        lemma_distinct_names_bound(s2, cands.drop_last());
    }
}

/// The message reported for one colliding name in a batch.
pub open spec fn collision_msg(name: Seq<char>) -> Seq<char> {
    name + " already bound"@
}

/// The hook registry after a batch of entries is offered to it in
/// order: a colliding entry leaves the registry as it was, every other
/// entry is bound.
pub open spec fn batch_map<V>(m: Map<Seq<char>, V>, entries: Seq<(String, V)>) -> Map<Seq<char>, V>
    decreases entries.len(),
{
    if entries.len() == 0 {
        m
    } else {
        let next = if m.contains_key(entries[0].0@) {
            m
        } else {
            m.insert(entries[0].0@, entries[0].1)
        };
        batch_map(next, entries.drop_first())
    }
}

/// The collision messages collected while a batch of entries is offered
/// to the registry in order, one per colliding entry.
pub open spec fn batch_errors<V>(m: Map<Seq<char>, V>, entries: Seq<(String, V)>) -> Seq<Seq<char>>
    decreases entries.len(),
{
    if entries.len() == 0 {
        Seq::empty()
    } else {
        if m.contains_key(entries[0].0@) {
            seq![collision_msg(entries[0].0@)] + batch_errors(m, entries.drop_first())
        } else {
            batch_errors(m.insert(entries[0].0@, entries[0].1), entries.drop_first())
        }
    }
}

/// The registry and dispatcher at the heart of the framework: it owns
/// the shared host state, the hook registry with its registration-order
/// name list, and the registry of running modules. The two registries
/// are association lists with pairwise-distinct keys, and are mutated
/// only from the control-plane operations below, on the caller's own
/// thread.
pub struct Framework<F, H> {
    hosts: HostMgr,
    names: Vec<String>,
    hooks: Vec<(String, Hook<F, H>)>,
    modules: Vec<(String, Module)>,
}

impl<F, H> Framework<F, H> where
    F: Fn(&Vec<String>, &FrameworkInfo) -> HookOutcome,
    H: Fn(&Vec<String>, &HostMgr) -> HookOutcome,
 {
    pub closed spec fn spec_hosts(&self) -> HostMgr {
        self.hosts
    }

    pub closed spec fn names_seq(&self) -> Seq<Seq<char>> {
        views_of(self.names@)
    }

    pub closed spec fn hooks_seq(&self) -> Seq<(String, Hook<F, H>)> {
        self.hooks@
    }

    pub closed spec fn modules_seq(&self) -> Seq<(String, Module)> {
        self.modules@
    }

    pub open spec fn hooks_map(&self) -> Map<Seq<char>, Hook<F, H>> {
        assoc_map(self.hooks_seq())
    }

    pub open spec fn modules_map(&self) -> Map<Seq<char>, Module> {
        assoc_map(self.modules_seq())
    }

    /// Registry well-formedness: hook and module names are unique, the
    /// ordered name list mirrors the hook registry exactly, and every
    /// registered callable accepts whatever it is handed.
    pub open spec fn wf(&self) -> bool {
        &&& keys_unique(self.hooks_seq())
        &&& keys_unique(self.modules_seq())
        &&& self.names_seq() == self.hooks_seq().map_values(|p: (String, Hook<F, H>)| p.0@)
        &&& forall|i: int| 0 <= i < self.hooks_seq().len() ==> hook_total(&self.hooks_seq()[i].1)
    }

    /// A fresh framework owning the given host state and no hooks or
    /// modules at all.
    pub fn new(hostmgr: HostMgr) -> (r: Framework<F, H>)
        ensures
            r.wf(),
            r.spec_hosts() == hostmgr,
            r.names_seq() == Seq::<Seq<char>>::empty(),
            r.hooks_seq() == Seq::<(String, Hook<F, H>)>::empty(),
            r.modules_seq() == Seq::<(String, Module)>::empty(),
    {
        let r = Framework { hosts: hostmgr, names: Vec::new(), hooks: Vec::new(), modules: Vec::new() };
        proof {
            assert(r.names_seq() =~= Seq::<Seq<char>>::empty());
            assert(r.names_seq() =~= r.hooks_seq().map_values(|p: (String, Hook<F, H>)| p.0@));
        }
        r
    }

    pub fn hosts(&self) -> (r: &HostMgr)
        ensures
            *r == self.spec_hosts(),
    {
        &self.hosts
    }

    pub fn names(&self) -> (r: &Vec<String>)
        ensures
            views_of(r@) == self.names_seq(),
    {
        &self.names
    }

    pub fn hooks(&self) -> (r: &Vec<(String, Hook<F, H>)>)
        ensures
            r@ == self.hooks_seq(),
    {
        &self.hooks
    }

    pub fn modules(&self) -> (r: &Vec<(String, Module)>)
        ensures
            r@ == self.modules_seq(),
    {
        &self.modules
    }

    /// Bind `hook` to `name`. A name already bound is a collision: the
    /// existing binding is left untouched and the collision is reported.
    /// Otherwise the hook is bound and `name` goes to the end of the
    /// ordered name list. This is the sole admission check; nothing is
    /// asked about the hook's behaviour.
    pub fn hook_up(&mut self, name: &str, hook: Hook<F, H>) -> (r: Result<(), ()>)
        requires
            old(self).wf(),
            hook_total(&hook),
        ensures
            final(self).wf(),
            final(self).spec_hosts() == old(self).spec_hosts(),
            final(self).modules_seq() == old(self).modules_seq(),
            old(self).hooks_map().contains_key(name@) ==> {
                &&& r is Err
                &&& final(self).hooks_seq() == old(self).hooks_seq()
                &&& final(self).names_seq() == old(self).names_seq()
            },
            !old(self).hooks_map().contains_key(name@) ==> {
                &&& r is Ok
                &&& final(self).hooks_seq().len() == old(self).hooks_seq().len() + 1
                &&& final(self).hooks_seq().drop_last() == old(self).hooks_seq()
                &&& final(self).hooks_seq().last().0@ == name@
                &&& final(self).hooks_seq().last().1 == hook
                &&& final(self).hooks_map() == old(self).hooks_map().insert(name@, hook)
                &&& final(self).names_seq() == old(self).names_seq().push(name@)
            },
    {
        let owned = name.to_owned();
        proof {
            lemma_assoc_map_contains(self.hooks@, name@);
        }
        match find_name(&self.hooks, &owned) {
            Some(_) => Err(()),
            None => {
                self.names.push(name.to_owned());
                self.hooks.push((owned, hook));
                proof {
                    let prev = old(self).hooks@;
                    assert(self.hooks@.drop_last() =~= prev);
                    assert(self.hooks_map() =~= old(self).hooks_map().insert(name@, hook));
                    assert(views_of(self.names@) =~= views_of(old(self).names@).push(name@));
                    assert forall|i: int, j: int|
                        0 <= i < j < self.hooks@.len() implies self.hooks@[i].0@ != self.hooks@[j].0@ by {
                        if j == self.hooks@.len() - 1 {
                            assert(!contains_name(prev, name@));
                            assert(prev[i].0@ != name@);
                        }
                    }
                    assert(self.names_seq() =~= self.hooks_seq().map_values(
                        |p: (String, Hook<F, H>)| p.0@,
                    ));
                }
                Ok(())
            },
        }
    }
    /// Offer a whole ordered batch of named hooks, as yielded by a
    /// plugin's entry point. A collision does not stop the batch: every
    /// entry with a free name is bound, and one message per colliding
    /// name is collected. The batch succeeds only if no name collided.
    pub fn load_batch(&mut self, entries: Vec<(String, Hook<F, H>)>) -> (r: Result<
        (),
        Vec<String>,
    >)
        requires
            old(self).wf(),
            forall|i: int| 0 <= i < entries@.len() ==> hook_total(&entries@[i].1),
        ensures
            final(self).wf(),
            final(self).spec_hosts() == old(self).spec_hosts(),
            final(self).modules_seq() == old(self).modules_seq(),
            final(self).hooks_map() == batch_map(old(self).hooks_map(), entries@),
            match r {
                Ok(()) => batch_errors(old(self).hooks_map(), entries@).len() == 0,
                Err(msgs) => {
                    &&& views_of(msgs@) == batch_errors(old(self).hooks_map(), entries@)
                    &&& msgs@.len() > 0
                },
            },
    {
        let ghost entries0 = entries@;
        let mut entries = entries;
        let mut errors: Vec<String> = Vec::new();
        proof {
            assert(views_of(errors@) =~= Seq::<Seq<char>>::empty());
        }
        while entries.len() > 0
            invariant
                self.wf(),
                forall|i: int| 0 <= i < entries@.len() ==> hook_total(&entries@[i].1),
                self.spec_hosts() == old(self).spec_hosts(),
                self.modules_seq() == old(self).modules_seq(),
                batch_map(self.hooks_map(), entries@) == batch_map(
                    old(self).hooks_map(),
                    entries0,
                ),
                views_of(errors@) + batch_errors(self.hooks_map(), entries@) == batch_errors(
                    old(self).hooks_map(),
                    entries0,
                ),
            decreases entries@.len(),
        {
            let ghost pre = entries@;
            let ghost m_pre = self.hooks_map();
            let (nm, hk) = entries.remove(0);
            proof {
                assert(pre.remove(0) =~= pre.drop_first());
                assert(pre[0] == (nm, hk));
            }
            match self.hook_up(nm.as_str(), hk) {
                Ok(()) => {
                    proof {
                        assert(!m_pre.contains_key(nm@));
                        assert(batch_map(m_pre, pre) == batch_map(
                            m_pre.insert(nm@, hk),
                            pre.drop_first(),
                        ));
                        assert(batch_errors(m_pre, pre) == batch_errors(
                            m_pre.insert(nm@, hk),
                            pre.drop_first(),
                        ));
                    }
                },
                Err(()) => {
                    let ghost errs_pre = views_of(errors@);
                    errors.push(nm.concat(" already bound"));
                    proof {
                        assert(m_pre.contains_key(nm@));
                        assert(views_of(errors@) =~= errs_pre.push(collision_msg(nm@)));
                        assert(errs_pre.push(collision_msg(nm@)) + batch_errors(
                            self.hooks_map(),
                            entries@,
                        ) =~= errs_pre + (seq![collision_msg(nm@)] + batch_errors(
                            self.hooks_map(),
                            entries@,
                        )));
                    }
                },
            }
        }
        proof {
            assert(entries@.len() == 0);
            assert(views_of(errors@) + batch_errors(self.hooks_map(), entries@)
                =~= views_of(errors@));
        }
        if errors.len() > 0 {
            Err(errors)
        } else {
            proof {
                assert(views_of(errors@).len() == 0);
            }
            Ok(())
        }
    }
    /// `info` is a faithful read-only view of this framework's state.
    pub open spec fn info_matches(&self, info: &FrameworkInfo) -> bool {
        &&& views_of(info.names@) == self.names_seq()
        &&& views_of(info.module_names@) == self.modules_seq().map_values(
            |p: (String, Module)| p.0@,
        )
        &&& info.hosts.same_cells(&self.spec_hosts())
    }

    /// One outcome the given hook may produce when called on `args`
    /// with the context its scope declares against this framework state.
    pub open spec fn may_yield(&self, h: Hook<F, H>, args: &Vec<String>, o: HookOutcome) -> bool {
        match h {
            Hook::Framework(f) => exists|info: FrameworkInfo|
                self.info_matches(&info) && call_ensures(f, (args, &info), o),
            Hook::HostMgr(g) => call_ensures(g, (args, &self.spec_hosts()), o),
        }
    }

    /// The read-only snapshot handed to a framework-scoped hook.
    fn info(&self) -> (r: FrameworkInfo)
        ensures
            self.info_matches(&r),
    {
        let mut names: Vec<String> = Vec::new();
        let mut i: usize = 0;
        while i < self.names.len()
            invariant
                i <= self.names@.len(),
                views_of(names@) == views_of(self.names@).take(i as int),
            decreases self.names@.len() - i,
        {
            let ghost pre = names@;
            names.push(self.names[i].clone());
            proof {
                assert(views_of(pre) == views_of(self.names@).take(i as int));
                assert(views_of(pre).len() == pre.len());
                assert(views_of(self.names@).take(i as int).len() == i);
                assert(views_of(names@) =~= views_of(self.names@).take(i + 1));
            }
            i += 1;
        }
        let mut module_names: Vec<String> = Vec::new();
        let mut j: usize = 0;
        while j < self.modules.len()
            invariant
                j <= self.modules@.len(),
                views_of(module_names@) == self.modules@.map_values(
                    |p: (String, Module)| p.0@,
                ).take(j as int),
            decreases self.modules@.len() - j,
        {
            let ghost pre = module_names@;
            module_names.push(self.modules[j].0.clone());
            proof {
                let target = self.modules@.map_values(|p: (String, Module)| p.0@);
                assert(views_of(pre) == target.take(j as int));
                assert(views_of(pre).len() == pre.len());
                assert(target.take(j as int).len() == j);
                assert(target[j as int] == self.modules@[j as int].0@);
                assert(views_of(module_names@) =~= target.take(j + 1));
            }
            j += 1;
        }
        proof {
            assert(views_of(names@) =~= views_of(self.names@));
            assert(views_of(module_names@) =~= self.modules@.map_values(
                |p: (String, Module)| p.0@,
            ));
        }
        FrameworkInfo { names, module_names, hosts: self.hosts.clone() }
    }

    /// Look `name` up and run the hook bound to it with the context its
    /// scope declares. An unknown name is an error naming the hook and
    /// changes nothing. A hook failure is passed through verbatim and
    /// registers nothing. Success without a module reports `false`;
    /// success with a module registers it under the first free key
    /// derived from `name` and reports `true`, so one hook may be
    /// invoked repeatedly, each run spawning an independently
    /// addressable module.
    pub fn try_run_hook(&mut self, name: &str, args: &Vec<String>) -> (r: Result<bool, String>)
        requires
            old(self).wf(),
        ensures
            final(self).wf(),
            final(self).spec_hosts() == old(self).spec_hosts(),
            final(self).hooks_seq() == old(self).hooks_seq(),
            final(self).names_seq() == old(self).names_seq(),
            !old(self).hooks_map().contains_key(name@) ==> {
                &&& final(self).modules_seq() == old(self).modules_seq()
                &&& r matches Err(m) && m@ == name@ + ": No such hook"@
            },
            old(self).hooks_map().contains_key(name@) ==> exists|o: HookOutcome|
                {
                    &&& old(self).may_yield(old(self).hooks_map()[name@], args, o)
                    &&& match o {
                        Err(msg) => r == Err::<bool, String>(msg) && final(self).modules_seq()
                            == old(self).modules_seq(),
                        Ok(mo) => match mo {
                            None => r == Ok::<bool, String>(false) && final(self).modules_seq()
                                == old(self).modules_seq(),
                            Some(m) => {
                                &&& r == Ok::<bool, String>(true)
                                &&& final(self).modules_seq().len() == old(
                                    self,
                                ).modules_seq().len() + 1
                                &&& final(self).modules_seq().drop_last() == old(
                                    self,
                                ).modules_seq()
                                &&& final(self).modules_seq().last().1 == m
                                &&& exists|j: nat|
                                    {
                                        &&& !old(self).modules_map().contains_key(
                                            #[trigger] spec_candidate(name@, j),
                                        )
                                        &&& forall|k2: nat|
                                            k2 < j ==> old(self).modules_map().contains_key(
                                                #[trigger] spec_candidate(name@, k2),
                                            )
                                        &&& final(self).modules_seq().last().0@ == spec_candidate(
                                            name@,
                                            j,
                                        )
                                        &&& final(self).modules_map() == old(
                                            self,
                                        ).modules_map().insert(spec_candidate(name@, j), m)
                                    }
                            },
                        },
                    }
                },
    {
        let owned = name.to_owned();
        proof {
            lemma_assoc_map_contains(self.hooks@, name@);
        }
        match find_name(&self.hooks, &owned) {
            None => Err(owned.concat(": No such hook")),
            Some(i) => {
                proof {
                    lemma_assoc_map_index(self.hooks@, i as int);
                }
                let res = match &self.hooks[i].1 {
                    Hook::Framework(f) => {
                        let info = self.info();
                        f(args, &info)
                    },
                    Hook::HostMgr(g) => g(args, &self.hosts),
                };
                proof {
                    assert(old(self).may_yield(old(self).hooks_map()[name@], args, res));
                }
                match res {
                    Err(msg) => Err(msg),
                    Ok(None) => Ok(false),
                    Ok(Some(module)) => {
                        let key = free_key(&self.modules, name);
                        proof {
                            lemma_assoc_map_contains(self.modules@, key@);
                        }
                        let ghost pre = self.modules@;
                        self.modules.push((key, module));
                        proof {
                            assert(self.modules@.drop_last() =~= pre);
                            assert(self.modules_map() =~= assoc_map(pre).insert(
                                self.modules@.last().0@,
                                self.modules@.last().1,
                            ));
                            assert forall|x: int, y: int|
                                0 <= x < y < self.modules@.len() implies self.modules@[x].0@
                                != self.modules@[y].0@ by {
                                if y == self.modules@.len() - 1 {
                                    assert(!contains_name(pre, self.modules@.last().0@));
                                    assert(pre[x].0@ != self.modules@.last().0@);
                                }
                            }
                        }
                        Ok(true)
                    },
                }
            },
        }
    }

    /// Ask the module registered under `name` to stop and hand its
    /// record back to the caller. The stop signal is sent on the
    /// module's shutdown channel; the worker is expected to notice it
    /// and exit, and the caller then joins the worker's thread. There
    /// is no forced kill. An unknown name is an error naming the module
    /// and changes nothing.
    pub fn stop_module(&mut self, name: &str) -> (r: Result<Module, String>)
        requires
            old(self).wf(),
        ensures
            final(self).wf(),
            final(self).spec_hosts() == old(self).spec_hosts(),
            final(self).hooks_seq() == old(self).hooks_seq(),
            final(self).names_seq() == old(self).names_seq(),
            !old(self).modules_map().contains_key(name@) ==> {
                &&& final(self).modules_seq() == old(self).modules_seq()
                &&& r matches Err(m) && m@ == name@ + ": No such module"@
            },
            old(self).modules_map().contains_key(name@) ==> {
                &&& r == Ok::<Module, String>(old(self).modules_map()[name@])
                &&& final(self).modules_map() == old(self).modules_map().remove(name@)
                &&& exists|i: int|
                    0 <= i < old(self).modules_seq().len() && old(self).modules_seq()[i].0@
                        == name@ && final(self).modules_seq() == old(self).modules_seq().remove(i)
            },
    {
        let owned = name.to_owned();
        proof {
            lemma_assoc_map_contains(self.modules@, name@);
        }
        match find_name(&self.modules, &owned) {
            None => Err(owned.concat(": No such module")),
            Some(i) => {
                proof {
                    lemma_assoc_map_index(self.modules@, i as int);
                    lemma_assoc_map_remove(self.modules@, i as int);
                }
                let ghost pre = self.modules@;
                let entry = self.modules.remove(i);
                proof {
                    assert forall|x: int, y: int|
                        0 <= x < y < self.modules@.len() implies self.modules@[x].0@
                        != self.modules@[y].0@ by {
                        assert(self.modules@[x] == (if x < i {
                            pre[x]
                        } else {
                            pre[x + 1]
                        }));
                        assert(self.modules@[y] == (if y < i {
                            pre[y]
                        } else {
                            pre[y + 1]
                        }));
                    }
                }
                entry.1.signal_stop();
                Ok(entry.1)
            },
        }
    }

    /// Route one inbound frame to every running module under its own
    /// filter, counting the deliveries made. Delivery never blocks the
    /// caller: a full or abandoned channel only drops the frame for
    /// that one module, and a module whose filter is closed is never
    /// delivered to at all.
    pub fn route_frame(&self, frame: &Vec<u8>) -> (n: usize)
        ensures
            n <= self.modules_seq().len(),
            (forall|i: int|
                0 <= i < self.modules_seq().len()
                    ==> self.modules_seq()[i].1.spec_filter().is_closed()) ==> n == 0,
    {
        let mut n: usize = 0;
        let mut i: usize = 0;
        while i < self.modules.len()
            invariant
                i <= self.modules@.len(),
                n <= i,
                (forall|k: int|
                    0 <= k < self.modules_seq().len()
                        ==> self.modules_seq()[k].1.spec_filter().is_closed()) ==> n == 0,
            decreases self.modules@.len() - i,
        {
            proof {
                assert(self.modules_seq()[i as int].1.spec_filter() == self.modules@[
                    i as int
                ].1.spec_filter());
            }
            if self.modules[i].1.offer_frame(frame) {
                n += 1;
            }
            i += 1;
        }
        n
    }
}

/// Law: a registration that collides on `name` leaves the framework's
/// whole observable state alone, so the binding of `name` and what a
/// later invocation of `name` may yield are exactly those of the
/// originally bound hook.
pub proof fn lemma_collision_keeps_original<F, H>(
    pre: Framework<F, H>,
    post: Framework<F, H>,
    name: Seq<char>,
    args: &Vec<String>,
    o: HookOutcome,
) where
    F: Fn(&Vec<String>, &FrameworkInfo) -> HookOutcome,
    H: Fn(&Vec<String>, &HostMgr) -> HookOutcome,

    requires
        pre.hooks_map().contains_key(name),
        post.hooks_seq() == pre.hooks_seq(),
        post.names_seq() == pre.names_seq(),
        post.modules_seq() == pre.modules_seq(),
        post.spec_hosts() == pre.spec_hosts(),
    ensures
        post.hooks_map()[name] == pre.hooks_map()[name],
        post.may_yield(post.hooks_map()[name], args, o) == pre.may_yield(
            pre.hooks_map()[name],
            args,
            o,
        ),
{
    let h = pre.hooks_map()[name];
    match h {
        Hook::Framework(_) => {
            assert forall|info: FrameworkInfo| post.info_matches(&info) == pre.info_matches(
                &info,
            ) by {}
        },
        Hook::HostMgr(_) => {},
    }
}

/// The first key derived from `name` that is free in the association
/// sequence: `name` itself, else `name_0`, `name_1`, ... in turn.
fn free_key(modules: &Vec<(String, Module)>, name: &str) -> (r: String)
    requires
        keys_unique(modules@),
    ensures
        exists|j: nat|
            {
                &&& r@ == spec_candidate(name@, j)
                &&& !assoc_map(modules@).contains_key(r@)
                &&& forall|k2: nat|
                    k2 < j ==> assoc_map(modules@).contains_key(spec_candidate(name@, k2))
            },
{
    let total = modules.len();
    let mut j: usize = 0;
    loop
        invariant
            total == modules@.len(),
            j <= total,
            keys_unique(modules@),
            forall|k2: nat|
                k2 < j ==> assoc_map(modules@).contains_key(
                    #[trigger] spec_candidate(name@, k2),
                ),
        decreases modules@.len() + 1 - j,
    {
        let key = candidate(name, j);
        proof {
            lemma_assoc_map_contains(modules@, key@);
        }
        match find_name(modules, &key) {
            None => {
                return key;
            },
            Some(_) => {
                proof {
                    let cands = Seq::new((j + 1) as nat, |k: int| spec_candidate(name@, k as nat));
                    assert forall|x: int, y: int|
                        0 <= x < y < cands.len() implies cands[x] != cands[y] by {
                        lemma_candidate_injective(name@, x as nat, y as nat);
                    }
                    assert forall|x: int| 0 <= x < cands.len() implies contains_name(
                        modules@,
                        cands[x],
                    ) by {
                        lemma_assoc_map_contains(modules@, cands[x]);
                        if x < j {
                            assert(assoc_map(modules@).contains_key(
                                spec_candidate(name@, x as nat),
                            ));
                        } else {
                            assert(cands[x] == key@);
                            assert(contains_name(modules@, key@));
                        }
                    }
                    lemma_distinct_names_bound(modules@, cands);
                }
                j += 1;
            },
        }
    }
}

/// The index of the entry bound to `name`, scanning in order.
fn find_name<V>(list: &Vec<(String, V)>, name: &String) -> (r: Option<usize>)
    ensures
        match r {
            Some(i) => i < list@.len() && list@[i as int].0@ == name@,
            None => !contains_name(list@, name@),
        },
{
    let mut i: usize = 0;
    while i < list.len()
        invariant
            i <= list@.len(),
            forall|k: int| 0 <= k < i ==> list@[k].0@ != name@,
        decreases list@.len() - i,
    {
        if list[i].0 == *name {
            return Some(i);
        }
        i += 1;
    }
    None
}

} // verus!
