//! `_ide_helper_options.php`: typed board options and a re-typed
//! `XF::options()` / `App::options()`.

use super::{banner, banner_spec};
use crate::contract::{string_at, string_count, string_entries, Contract};
use vstd::prelude::*;

verus! {

/// The comment lines of the file header.
pub open spec fn header_extra() -> Seq<char> {
    " *\n * @property stubs for board options, plus a re-typing of XF::options() /\n * App::options() so \\XF::options()->name resolves with no edits to XF core.\n * If this ever hides \\XF:: members, delete this single file.\n"@
}

/// One `@property` line per option, in contract order.
pub open spec fn option_lines(opts: Seq<(Seq<char>, Seq<char>)>) -> Seq<char>
    decreases opts.len(),
{
    if opts.len() == 0 {
        Seq::<char>::empty()
    } else {
        option_lines(opts.drop_last()) + "\t * @property "@ + opts.last().1 + " $"@
            + opts.last().0 + "\n"@
    }
}

pub open spec fn render_spec(c: Contract) -> Seq<char> {
    banner_spec(header_extra()) + "namespace XFIDEHelper {\n\t/**\n"@ + option_lines(
        string_entries(c.options),
    ) + "\t */\n\tclass Options extends \\ArrayObject {}\n}\n\n"@
        + "namespace {\n\t/**\n\t * @method static \\XFIDEHelper\\Options options()\n\t */\n\tclass XF {}\n}\n\n"@
        + "namespace XF {\n\t/**\n\t * @method \\XFIDEHelper\\Options options()\n\t */\n\tclass App {}\n}\n"@
}

/// Renders `_ide_helper_options.php`.
pub fn render(contract: &Contract) -> (out: String)
    ensures
        out@ == render_spec(*contract),
{
    let mut out = banner(
        " *\n * @property stubs for board options, plus a re-typing of XF::options() /\n * App::options() so \\XF::options()->name resolves with no edits to XF core.\n * If this ever hides \\XF:: members, delete this single file.\n",
    );
    out.append("namespace XFIDEHelper {\n\t/**\n");
    let ghost head = out@;
    let ghost opts = string_entries(contract.options);
    let n = string_count(&contract.options);
    let mut i: usize = 0;
    while i < n
        invariant
            n == opts.len(),
            opts == string_entries(contract.options),
            i <= n,
            out@ =~= head + option_lines(opts.take(i as int)),
        decreases n - i,
    {
        let (name, ty) = string_at(&contract.options, i);
        out.append("\t * @property ");
        out.append(ty.as_str());
        out.append(" $");
        out.append(name.as_str());
        out.append("\n");
        proof {
            assert(opts.take(i + 1).drop_last() =~= opts.take(i as int));
        }
        i = i + 1;
    }
    proof {
        assert(opts.take(n as int) =~= opts);
    }
    out.append("\t */\n\tclass Options extends \\ArrayObject {}\n}\n\n");
    out.append(
        "namespace {\n\t/**\n\t * @method static \\XFIDEHelper\\Options options()\n\t */\n\tclass XF {}\n}\n\n",
    );
    out.append(
        "namespace XF {\n\t/**\n\t * @method \\XFIDEHelper\\Options options()\n\t */\n\tclass App {}\n}\n",
    );
    out
}

} // verus!
