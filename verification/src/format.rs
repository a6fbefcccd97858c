//! The response formatter: renders a batch of responses as a numbered,
//! human-readable report.  Purely presentational — nothing here affects
//! what an action did.

use vstd::prelude::*;
use vstd::string::*;
use crate::agent::AgentResponse;
use crate::text::{dec_chars, spec_dec, spec_lines, split_lines, string_from_chars, to_chars};

verus! {

/// Up to ten of the data lines, each indented, starting at line `k`.
pub open spec fn spec_first_lines(lines: Seq<Seq<char>>, k: int) -> Seq<char>
    decreases 10 - k,
{
    if k < 0 || k >= lines.len() || k >= 10 {
        Seq::empty()
    } else {
        "   "@ + lines[k] + "\n"@ + spec_first_lines(lines, k + 1)
    }
}

/// The first `k` data lines rendered, each indented and terminated.
pub open spec fn spec_lines_upto(lines: Seq<Seq<char>>, k: int) -> Seq<char>
    decreases k,
{
    if k <= 0 {
        Seq::empty()
    } else {
        spec_lines_upto(lines, k - 1) + "   "@ + lines[k - 1] + "\n"@
    }
}

/// The first-ten rendering telescopes: what is rendered so far plus what
/// remains is the whole block.
proof fn lemma_lines_telescope(lines: Seq<Seq<char>>, k: int)
    requires
        0 <= k <= 10,
        k <= lines.len(),
    ensures
        spec_lines_upto(lines, k) + spec_first_lines(lines, k) == spec_first_lines(lines, 0),
    decreases k,
{
    if k == 0 {
        assert(spec_lines_upto(lines, 0) + spec_first_lines(lines, 0) =~= spec_first_lines(
            lines,
            0,
        ));
    } else {
        lemma_lines_telescope(lines, k - 1);
        assert(spec_lines_upto(lines, k) + spec_first_lines(lines, k) =~= spec_lines_upto(
            lines,
            k - 1,
        ) + spec_first_lines(lines, k - 1));
    }
}

/// The data block of one entry: nothing when there is no data or it is
/// empty; otherwise a header, up to ten indented lines, and a truncation
/// marker when more lines exist.
pub open spec fn spec_data_block(data: Option<String>) -> Seq<char> {
    match data {
        Some(d) => if d@.len() > 0 {
            "   Output:\n"@ + spec_first_lines(spec_lines(d@), 0) + (if spec_lines(d@).len() > 10 {
                "   ... (output truncated)\n"@
            } else {
                Seq::empty()
            })
        } else {
            Seq::empty()
        },
        None => Seq::empty(),
    }
}

/// The error line of one entry, when an error is present.
pub open spec fn spec_error_block(error: Option<String>) -> Seq<char> {
    match error {
        Some(e) => "   Error: "@ + e@ + "\n"@,
        None => Seq::empty(),
    }
}

/// One numbered report entry: position, outcome glyph, message, then the
/// data block, the error line, and a blank separator line.
pub open spec fn spec_entry(i: int, resp: AgentResponse) -> Seq<char> {
    spec_dec((i + 1) as nat) + ". "@ + (if resp.success {
        "\u{2705}"@
    } else {
        "\u{274C}"@
    }) + " "@ + resp.message@ + "\n"@ + spec_data_block(resp.data) + spec_error_block(resp.error)
        + "\n"@
}

pub open spec fn spec_entries(responses: Seq<AgentResponse>, i: int) -> Seq<char>
    decreases responses.len() - i,
{
    if i < 0 || i >= responses.len() {
        Seq::empty()
    } else {
        spec_entry(i, responses[i]) + spec_entries(responses, i + 1)
    }
}

/// The whole report: a fixed sentence for an empty batch, otherwise a
/// heading followed by one numbered entry per response, in order.
pub open spec fn spec_format(responses: Seq<AgentResponse>) -> Seq<char> {
    if responses.len() == 0 {
        "No actions were executed."@
    } else {
        "\u{1F916} Agent Actions Executed:\n\n"@ + spec_entries(responses, 0)
    }
}

/// Renders a batch of responses (`spec_format`), exactly.
pub fn format_agent_responses(responses: &Vec<AgentResponse>) -> (r: String)
    ensures
        r@ == spec_format(responses@),
{
    if responses.len() == 0 {
        return String::from_str("No actions were executed.");
    }
    let mut out = String::from_str("\u{1F916} Agent Actions Executed:\n\n");
    let mut i: usize = 0;
    while i < responses.len()
        invariant
            i <= responses@.len(),
            responses@.len() > 0,
            out@ + spec_entries(responses@, i as int) == spec_format(responses@),
        decreases responses@.len() - i,
    {
        let entry = render_entry(i, &responses[i]);
        out.append(entry.as_str());
        proof {
            assert(out@ + spec_entries(responses@, i + 1) =~= spec_format(responses@));
        }
        i += 1;
    }
    proof {
        assert(out@ =~= spec_format(responses@));
    }
    out
}

/// One rendered report entry (`spec_entry`), exactly.
fn render_entry(i: usize, resp: &AgentResponse) -> (r: String)
    requires
        i < usize::MAX,
    ensures
        r@ == spec_entry(i as int, *resp),
{
    let mut out = string_from_chars(&dec_chars((i + 1) as u64));
    out.append(". ");
    if resp.success {
        out.append("\u{2705}");
    } else {
        out.append("\u{274C}");
    }
    out.append(" ");
    out.append(resp.message.as_str());
    out.append("\n");
    proof {
        assert(out@ =~= spec_dec((i + 1) as nat) + ". "@ + (if resp.success {
            "\u{2705}"@
        } else {
            "\u{274C}"@
        }) + " "@ + resp.message@ + "\n"@);
    }
    let data_block = render_data_block(&resp.data);
    out.append(data_block.as_str());
    match &resp.error {
        Some(e) => {
            out.append("   Error: ");
            out.append(e.as_str());
            out.append("\n");
        },
        None => {},
    }
    out.append("\n");
    proof {
        assert(out@ =~= spec_entry(i as int, *resp));
    }
    out
}

/// The rendered data block of one entry (`spec_data_block`), exactly.
fn render_data_block(data: &Option<String>) -> (r: String)
    ensures
        r@ == spec_data_block(*data),
{
    let mut out = String::new();
    match data {
        Some(d) => {
            if !d.as_str().is_empty() {
                out.append("   Output:\n");
                let lines = split_lines(&to_chars(d.as_str()));
                let mut k: usize = 0;
                let ghost mid = out@;
                while k < lines.len() && k < 10
                    invariant
                        k <= lines@.len(),
                        k <= 10,
                        crate::text::views_of(lines@) == spec_lines(d@),
                        out@ == mid + spec_lines_upto(spec_lines(d@), k as int),
                    decreases lines@.len() - k,
                {
                    out.append("   ");
                    out.append(string_from_chars(&lines[k]).as_str());
                    out.append("\n");
                    proof {
                        assert(out@ =~= mid + spec_lines_upto(spec_lines(d@), k + 1));
                    }
                    k += 1;
                }
                proof {
                    lemma_lines_telescope(spec_lines(d@), k as int);
                    assert(spec_first_lines(spec_lines(d@), k as int) =~= Seq::empty());
                    assert(out@ =~= mid + spec_first_lines(spec_lines(d@), 0));
                }
                if lines.len() > 10 {
                    out.append("   ... (output truncated)\n");
                }
            }
        },
        None => {},
    }
    proof {
        assert(out@ =~= spec_data_block(*data));
    }
    out
}

} // verus!
