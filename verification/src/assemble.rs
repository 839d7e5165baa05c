//! Assembly of parsed members into interfaces and of interfaces into a
//! document: first definition wins on a name collision, every collision is
//! recorded, and the recorded messages are kept deduplicated and sorted.

use vstd::prelude::*;
use crate::ast::{Interface, Method, MethodOrTypedef, Typedef, Varlink, iface_wf};
use crate::keyed::{Keyed, find_keyed, insert_keyed, key_map, lemma_key_map_dom, sorted_keyed};
use crate::text::{insert_str, join_lines, join_nl, sorted_strs, strs};

verus! {

/// The message recorded when an interface defines one name twice.
pub open spec fn dup_msg_s(iface: Seq<char>, name: Seq<char>) -> Seq<char> {
    "Interface `"@ + iface + "´: multiple definitions of type `"@ + name + "´!"@
}

/// The message recorded when an interface defines no method.
pub open spec fn no_method_msg_s(iface: Seq<char>) -> Seq<char> {
    "Interface `"@ + iface + "´: no method defined!"@
}

/// The message recorded when a document defines one interface twice.
pub open spec fn multi_msg_s(iface: Seq<char>) -> Seq<char> {
    "Multiple definitions of interface `"@ + iface + "´!"@
}

fn dup_msg(iface: &str, name: &str) -> (r: String)
    ensures
        r@ == dup_msg_s(iface@, name@),
{
    let mut r = String::from_str("Interface `");
    r.append(iface);
    r.append("´: multiple definitions of type `");
    r.append(name);
    r.append("´!");
    proof {
        assert(r@ =~= dup_msg_s(iface@, name@));
    }
    r
}

fn no_method_msg(iface: &str) -> (r: String)
    ensures
        r@ == no_method_msg_s(iface@),
{
    let mut r = String::from_str("Interface `");
    r.append(iface);
    r.append("´: no method defined!");
    proof {
        assert(r@ =~= no_method_msg_s(iface@));
    }
    r
}

fn multi_msg(iface: &str) -> (r: String)
    ensures
        r@ == multi_msg_s(iface@),
{
    let mut r = String::from_str("Multiple definitions of interface `");
    r.append(iface);
    r.append("´!");
    proof {
        assert(r@ =~= multi_msg_s(iface@));
    }
    r
}

/// The typedefs of a member list, first definition of each name winning.
pub open spec fn assemble_tds(mt: Seq<MethodOrTypedef>) -> Map<Seq<char>, Typedef>
    decreases mt.len(),
{
    if mt.len() == 0 {
        Map::empty()
    } else {
        let m = assemble_tds(mt.drop_last());
        match mt.last() {
            MethodOrTypedef::Typedef(t) => if m.contains_key(t.name@) {
                m
            } else {
                m.insert(t.name@, t)
            },
            MethodOrTypedef::Method(_) => m,
        }
    }
}

/// The methods of a member list, first definition of each name winning.
pub open spec fn assemble_ms(mt: Seq<MethodOrTypedef>) -> Map<Seq<char>, Method>
    decreases mt.len(),
{
    if mt.len() == 0 {
        Map::empty()
    } else {
        let m = assemble_ms(mt.drop_last());
        match mt.last() {
            MethodOrTypedef::Method(x) => if m.contains_key(x.name@) {
                m
            } else {
                m.insert(x.name@, x)
            },
            MethodOrTypedef::Typedef(_) => m,
        }
    }
}

/// The duplicate-definition messages a member list gives rise to.
pub open spec fn assemble_errs(n: Seq<char>, mt: Seq<MethodOrTypedef>) -> Set<Seq<char>>
    decreases mt.len(),
{
    if mt.len() == 0 {
        Set::empty()
    } else {
        let e = assemble_errs(n, mt.drop_last());
        match mt.last() {
            MethodOrTypedef::Typedef(t) => if assemble_tds(mt.drop_last()).contains_key(t.name@) {
                e.insert(dup_msg_s(n, t.name@))
            } else {
                e
            },
            MethodOrTypedef::Method(x) => if assemble_ms(mt.drop_last()).contains_key(x.name@) {
                e.insert(dup_msg_s(n, x.name@))
            } else {
                e
            },
        }
    }
}

impl Interface {
    /// Builds an interface from its name and the members of its block, in
    /// declaration order. The first definition of each name is kept; every
    /// further definition of the same name is recorded as an error, as is
    /// the absence of any method.
    pub fn from_token(n: String, mt: Vec<MethodOrTypedef>) -> (r: Interface)
        ensures
            r.name@ == n@,
            iface_wf(r),
            key_map(r.typedefs@) == assemble_tds(mt@),
            key_map(r.methods@) == assemble_ms(mt@),
            strs(r.error@) == if r.methods@.len() == 0 {
                assemble_errs(n@, mt@).insert(no_method_msg_s(n@))
            } else {
                assemble_errs(n@, mt@)
            },
            r.methods@.len() == 0 <==> assemble_ms(mt@) == Map::<Seq<char>, Method>::empty(),
    {
        let ghost mt0 = mt@;
        let mut mt = mt;
        let mut typedefs: Vec<Typedef> = Vec::new();
        let mut methods: Vec<Method> = Vec::new();
        let mut error: Vec<String> = Vec::new();
        proof {
            assert(mt0.take(0) =~= Seq::<MethodOrTypedef>::empty());
        }
        while mt.len() > 0
            invariant
                mt@.len() <= mt0.len(),
                mt@ == mt0.skip(mt0.len() - mt@.len()),
                sorted_keyed(typedefs@),
                sorted_keyed(methods@),
                sorted_strs(error@),
                key_map(typedefs@) == assemble_tds(mt0.take(mt0.len() - mt@.len())),
                key_map(methods@) == assemble_ms(mt0.take(mt0.len() - mt@.len())),
                strs(error@) == assemble_errs(n@, mt0.take(mt0.len() - mt@.len())),
            decreases mt@.len(),
        {
            let ghost i = mt0.len() - mt@.len();
            let o = mt.remove(0);
            proof {
                assert(o == mt0.skip(i)[0]);
                assert(o == mt0[i]);
                assert(mt@ =~= mt0.skip(i + 1));
                assert(mt0.take(i + 1).drop_last() =~= mt0.take(i));
                assert(mt0.take(i + 1).last() == mt0[i]);
            }
            match o {
                MethodOrTypedef::Typedef(t) => {
                    proof {
                        lemma_key_map_dom(typedefs@);
                    }
                    match find_keyed(&typedefs, t.key_ref()) {
                        Some(_) => {
                            insert_str(&mut error, dup_msg(n.as_str(), t.key_ref()));
                        },
                        None => {
                            insert_keyed(&mut typedefs, t);
                        },
                    }
                },
                MethodOrTypedef::Method(m) => {
                    proof {
                        lemma_key_map_dom(methods@);
                    }
                    match find_keyed(&methods, m.key_ref()) {
                        Some(_) => {
                            insert_str(&mut error, dup_msg(n.as_str(), m.key_ref()));
                        },
                        None => {
                            insert_keyed(&mut methods, m);
                        },
                    }
                },
            }
        }
        proof {
            assert(mt0.take(mt0.len() as int) =~= mt0);
            lemma_key_map_dom(methods@);
            if methods@.len() == 0 {
                assert(assemble_ms(mt0) =~= Map::<Seq<char>, Method>::empty());
            } else {
                assert(key_map(methods@).contains_key(methods@[0].skey()));
            }
        }
        if methods.len() == 0 {
            insert_str(&mut error, no_method_msg(n.as_str()));
        }
        Interface { name: n, typedefs, methods, error }
    }
}

/// The interfaces of a document, first block of each name winning.
pub open spec fn doc_map(ifs: Seq<Interface>) -> Map<Seq<char>, Interface>
    decreases ifs.len(),
{
    if ifs.len() == 0 {
        Map::empty()
    } else {
        let m = doc_map(ifs.drop_last());
        if m.contains_key(ifs.last().name@) {
            m
        } else {
            m.insert(ifs.last().name@, ifs.last())
        }
    }
}

/// Every message a document reports: each interface's own errors, and one
/// message per repeated interface name.
pub open spec fn doc_errs(ifs: Seq<Interface>) -> Set<Seq<char>>
    decreases ifs.len(),
{
    if ifs.len() == 0 {
        Set::empty()
    } else {
        let e = doc_errs(ifs.drop_last()).union(strs(ifs.last().error@));
        if doc_map(ifs.drop_last()).contains_key(ifs.last().name@) {
            e.insert(multi_msg_s(ifs.last().name@))
        } else {
            e
        }
    }
}

proof fn lemma_strs_take_push(es: Seq<String>, j: int)
    requires
        0 <= j < es.len(),
    ensures
        strs(es.take(j + 1)) == strs(es.take(j)).insert(es[j]@),
{
    let a = es.take(j);
    let b = es.take(j + 1);
    assert forall|s: Seq<char>| strs(b).contains(s) implies strs(a).insert(es[j]@).contains(
        s,
    ) by {
        let i = choose|i: int| 0 <= i < b.len() && b[i]@ == s;
        if i < j {
            assert(a[i]@ == s);
        } else {
            assert(b[i] == es[j]);
        }
    }
    assert forall|s: Seq<char>| strs(a).insert(es[j]@).contains(s) implies strs(b).contains(
        s,
    ) by {
        if s == es[j]@ {
            assert(b[j]@ == s);
        } else {
            let i = choose|i: int| 0 <= i < a.len() && a[i]@ == s;
            assert(b[i]@ == s);
        }
    }
    assert(strs(b) =~= strs(a).insert(es[j]@));
}

/// Adds every message of `es` to the sorted log.
fn extend_errs(log: &mut Vec<String>, es: &Vec<String>)
    requires
        sorted_strs(old(log)@),
    ensures
        sorted_strs(final(log)@),
        strs(final(log)@) == strs(old(log)@).union(strs(es@)),
{
    let mut j: usize = 0;
    proof {
        assert(es@.take(0) =~= Seq::<String>::empty());
        assert(strs(log@) =~= strs(log@).union(strs(es@.take(0))));
    }
    while j < es.len()
        invariant
            j <= es@.len(),
            sorted_strs(log@),
            strs(log@) == strs(old(log)@).union(strs(es@.take(j as int))),
        decreases es@.len() - j,
    {
        insert_str(log, es[j].clone());
        proof {
            lemma_strs_take_push(es@, j as int);
            assert(strs(log@) =~= strs(old(log)@).union(strs(es@.take(j + 1))));
        }
        j = j + 1;
    }
    proof {
        assert(es@.take(es@.len() as int) =~= es@);
    }
}

impl Varlink {
    /// Builds the document from its interface blocks, in source order. The
    /// first block of each interface name is kept; a repeated name is
    /// recorded, and the later block contributes only its own errors. The
    /// result is the document exactly when no error was recorded anywhere;
    /// otherwise it is the distinct messages, sorted and newline-joined.
    pub fn from_interfaces(ifs: Vec<Interface>) -> (r: Result<Varlink, String>)
        requires
            forall|i: int| 0 <= i < ifs@.len() ==> iface_wf(#[trigger] ifs@[i]),
        ensures
            match r {
                Ok(v) => doc_errs(ifs@) == Set::<Seq<char>>::empty() && crate::ast::doc_wf(v)
                    && key_map(v.interfaces@) == doc_map(ifs@),
                Err(e) => doc_errs(ifs@) != Set::<Seq<char>>::empty() && exists|log: Seq<String>|
                    sorted_strs(log) && strs(log) == doc_errs(ifs@) && e@ == join_nl(log),
            },
    {
        let ghost ifs0 = ifs@;
        let mut ifs = ifs;
        let mut interfaces: Vec<Interface> = Vec::new();
        let mut log: Vec<String> = Vec::new();
        proof {
            assert(ifs0.take(0) =~= Seq::<Interface>::empty());
        }
        while ifs.len() > 0
            invariant
                ifs@.len() <= ifs0.len(),
                ifs@ == ifs0.skip(ifs0.len() - ifs@.len()),
                forall|i: int| 0 <= i < ifs0.len() ==> iface_wf(#[trigger] ifs0[i]),
                sorted_keyed(interfaces@),
                forall|i: int| 0 <= i < interfaces@.len() ==> iface_wf(
                    #[trigger] interfaces@[i],
                ),
                sorted_strs(log@),
                key_map(interfaces@) == doc_map(ifs0.take(ifs0.len() - ifs@.len())),
                strs(log@) == doc_errs(ifs0.take(ifs0.len() - ifs@.len())),
            decreases ifs@.len(),
        {
            let ghost i = ifs0.len() - ifs@.len();
            let f = ifs.remove(0);
            proof {
                assert(f == ifs0.skip(i)[0]);
                assert(f == ifs0[i]);
                assert(ifs@ =~= ifs0.skip(i + 1));
                assert(ifs0.take(i + 1).drop_last() =~= ifs0.take(i));
                assert(ifs0.take(i + 1).last() == ifs0[i]);
            }
            extend_errs(&mut log, &f.error);
            proof {
                lemma_key_map_dom(interfaces@);
            }
            match find_keyed(&interfaces, f.key_ref()) {
                Some(_) => {
                    insert_str(&mut log, multi_msg(f.key_ref()));
                    proof {
                        assert(strs(log@) =~= doc_errs(ifs0.take(i + 1)));
                    }
                },
                None => {
                    let ghost before = interfaces@;
                    insert_keyed(&mut interfaces, f);
                    proof {
                        assert(strs(log@) =~= doc_errs(ifs0.take(i + 1)));
                        assert forall|p: int| 0 <= p < interfaces@.len() implies iface_wf(
                            #[trigger] interfaces@[p],
                        ) by {
                            if interfaces@[p] != ifs0[i] {
                                assert(before.contains(interfaces@[p]));
                                let q = choose|q: int|
                                    0 <= q < before.len() && before[q] == interfaces@[p];
                                assert(iface_wf(before[q]));
                            }
                        }
                    }
                },
            }
        }
        proof {
            assert(ifs0.take(ifs0.len() as int) =~= ifs0);
        }
        if log.len() == 0 {
            proof {
                assert forall|s: Seq<char>| !strs(log@).contains(s) by {}
                assert(strs(log@) =~= Set::<Seq<char>>::empty());
            }
            Ok(Varlink { interfaces })
        } else {
            proof {
                assert(strs(log@).contains(log@[0]@));
                assert(strs(log@) != Set::<Seq<char>>::empty());
            }
            let ghost logv = log@;
            Err(join_lines(&log))
        }
    }
}

} // verus!
