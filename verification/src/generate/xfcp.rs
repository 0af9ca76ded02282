//! `_ide_helper_xfcp.php`: one stub per XFCP class-extension proxy, grouped
//! by namespace, namespaces and classes in sorted order.

use super::{banner, banner_spec};
use crate::contract::{ClassExtension, Contract};
use crate::order::{sort_triples, triple_leq, triple_view, Triple};
use crate::php::{fqcn, fqcn_spec, split_class, split_class_spec};
use vstd::prelude::*;

verus! {

/// The comment lines of the file header.
pub open spec fn header_extra() -> Seq<char> {
    " *\n * Stubs for XenForo's runtime-generated XFCP class proxies, so the IDE can\n * resolve `class Foo extends XFCP_Foo`. Keep it out of your PHP autoload.\n"@
}

/// The namespace, short name and parent class of one proxy.
pub open spec fn extension_triple(e: ClassExtension) -> Triple {
    let (ns, short) = split_class_spec(e.proxy@);
    (ns, short, e.extends@)
}

/// The proxies of the contract as triples, in contract order.
pub open spec fn extension_triples(c: Contract) -> Seq<Triple> {
    c.class_extensions@.map_values(|e: ClassExtension| extension_triple(e))
}

/// The proxies in the order they are written: by namespace, then short name,
/// then parent class.
pub open spec fn sorted_triples(c: Contract) -> Seq<Triple> {
    extension_triples(c).sort_by(|x: Triple, y: Triple| triple_leq(x, y))
}

/// The line that opens a namespace block (the global one when `ns` is empty).
pub open spec fn namespace_open(ns: Seq<char>) -> Seq<char> {
    if ns.len() == 0 {
        "namespace {\n"@
    } else {
        "namespace "@ + ns + " {\n"@
    }
}

/// The stub of one proxy.
pub open spec fn class_line(t: Triple) -> Seq<char> {
    "\tclass "@ + t.1 + " extends "@ + fqcn_spec(t.2) + " {}\n"@
}

/// The namespace blocks for sorted triples, without the closing of the last block.
pub open spec fn groups_body(s: Seq<Triple>) -> Seq<char>
    decreases s.len(),
{
    if s.len() == 0 {
        Seq::<char>::empty()
    } else {
        let last = s.last();
        let opening = if s.len() == 1 {
            namespace_open(last.0)
        } else if s[s.len() - 2].0 != last.0 {
            "}\n\n"@ + namespace_open(last.0)
        } else {
            Seq::<char>::empty()
        };
        groups_body(s.drop_last()) + opening + class_line(last)
    }
}

/// All namespace blocks for sorted triples.
pub open spec fn groups_text(s: Seq<Triple>) -> Seq<char> {
    groups_body(s) + if s.len() > 0 {
        "}\n\n"@
    } else {
        Seq::<char>::empty()
    }
}

pub open spec fn render_spec(c: Contract) -> Seq<char> {
    banner_spec(header_extra()) + groups_text(sorted_triples(c))
}

/// Renders `_ide_helper_xfcp.php`.
pub fn render(contract: &Contract) -> (out: String)
    ensures
        out@ == render_spec(*contract),
{
    let mut out = banner(
        " *\n * Stubs for XenForo's runtime-generated XFCP class proxies, so the IDE can\n * resolve `class Foo extends XFCP_Foo`. Keep it out of your PHP autoload.\n",
    );
    let ghost head = out@;
    let exts = &contract.class_extensions;
    let m = exts.len();
    let mut triples: Vec<(String, String, String)> = Vec::new();
    let mut k: usize = 0;
    while k < m
        invariant
            m == exts@.len(),
            exts == contract.class_extensions,
            k <= m,
            triples@.map_values(|t: (String, String, String)| triple_view(t)) =~= extension_triples(
                *contract,
            ).take(k as int),
        decreases m - k,
    {
        let ext = &exts[k];
        let (ns, short) = split_class(ext.proxy.as_str());
        let ghost before = triples@;
        let t = (ns, short, ext.extends.clone());
        proof {
            assert(triple_view(t) == extension_triple(exts@[k as int]));
        }
        triples.push(t);
        proof {
            assert(triples@ =~= before.push(t));
            assert(extension_triples(*contract).take(k + 1) =~= extension_triples(*contract).take(
                k as int,
            ).push(triple_view(t)));
        }
        k = k + 1;
    }
    proof {
        assert(extension_triples(*contract).take(m as int) =~= extension_triples(*contract));
    }
    let sorted = sort_triples(triples);
    let ghost s = sorted@.map_values(|t: (String, String, String)| triple_view(t));
    let n = sorted.len();
    let mut i: usize = 0;
    while i < n
        invariant
            n == sorted@.len(),
            s == sorted@.map_values(|t: (String, String, String)| triple_view(t)),
            i <= n,
            out@ =~= head + groups_body(s.take(i as int)),
        decreases n - i,
    {
        let t = &sorted[i];
        let ghost before = out@;
        if i == 0 || sorted[i - 1].0 != t.0 {
            if i > 0 {
                out.append("}\n\n");
            }
            if t.0.as_str().unicode_len() == 0 {
                out.append("namespace {\n");
            } else {
                out.append("namespace ");
                out.append(t.0.as_str());
                out.append(" {\n");
            }
        }
        out.append("\tclass ");
        out.append(t.1.as_str());
        out.append(" extends ");
        let parent = fqcn(t.2.as_str());
        out.append(parent.as_str());
        out.append(" {}\n");
        proof {
            let s1 = s.take(i + 1);
            assert(s1.drop_last() =~= s.take(i as int));
            assert(s1.last() == triple_view(*t));
            if i > 0 {
                assert(s1[s1.len() - 2] == triple_view(sorted@[i - 1]));
            }
        }
        i = i + 1;
    }
    if n > 0 {
        out.append("}\n\n");
    }
    proof {
        assert(s.take(n as int) =~= s);
    }
    out
}

} // verus!
