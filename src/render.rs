use vstd::prelude::*;
use vstd::string::*;

use crate::store::lines_view;

verus! {

/// One line of a report per status line: `  * {line}` and a line break, in order.
pub open spec fn bullets(lines: Seq<Seq<char>>) -> Seq<char>
    decreases lines.len(),
{
    if lines.len() == 0 {
        Seq::empty()
    } else {
        bullets(lines.drop_last()) + "  * "@ + lines.last() + "\n"@
    }
}

/// The report of user `name`: the header `Status for {name}:` and then its lines.
pub open spec fn render(name: Seq<char>, lines: Seq<Seq<char>>) -> Seq<char> {
    "Status for "@ + name + ":\n"@ + bullets(lines)
}

/// Two renderings of the same name and lines are the same text.
pub proof fn lemma_render_deterministic(
    name: Seq<char>,
    lines: Seq<Seq<char>>,
    first: Seq<char>,
    second: Seq<char>,
)
    requires
        first == render(name, lines),
        second == render(name, lines),
    ensures
        first == second,
{
}

/// Renders the report of `user` over its status lines.
pub fn template_output(user: String, status: Vec<String>) -> (r: String)
    ensures
        r@ == render(user@, lines_view(status@)),
{
    let mut output = String::from_str("Status for ");
    output.append(user.as_str());
    output.append(":\n");
    let ghost header = "Status for "@ + user@ + ":\n"@;
    let ghost all = lines_view(status@);
    assert(all.subrange(0, 0) =~= Seq::<Seq<char>>::empty());
    let mut i: usize = 0;
    while i < status.len()
        invariant
            i <= status.len(),
            all == lines_view(status@),
            output@ == header + bullets(all.subrange(0, i as int)),
        decreases status.len() - i,
    {
        output.append("  * ");
        output.append(status[i].as_str());
        output.append("\n");
        proof {
            let next = all.subrange(0, i + 1);
            assert(next.drop_last() =~= all.subrange(0, i as int));
            assert(next.last() == status@[i as int]@);
            assert(output@ =~= header + bullets(next));
        }
        i += 1;
    }
    assert(all.subrange(0, status.len() as int) =~= all);
    output
}

} // verus!
