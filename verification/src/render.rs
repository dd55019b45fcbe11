//! Deterministic diagnostic rendering of a snapshot.
//!
//! The output is one line with the method and the URL, one line per distinct
//! header key (its values joined with `,`), and a final line holding the
//! body decoded as text — always present, even for an empty body. Header
//! values and the body are decoded as UTF-8 with lossy substitution, so
//! rendering never fails on client-controlled bytes. Header lines come in
//! the map's own stable iteration order, so rendering the same snapshot
//! twice yields the same text.

use vstd::prelude::*;
use vstd::string::StringExecFns;

use crate::headers::{views_of, HeaderEntry};
use crate::request::Request;
use crate::text::{lossy_utf8, utf8_lossy};

verus! {

/// One header's values, each lossy-decoded, joined with `,`.
pub open spec fn spec_join_values(values: Seq<Seq<u8>>) -> Seq<char>
    decreases values.len(),
{
    if values.len() == 0 {
        Seq::empty()
    } else if values.len() == 1 {
        lossy_utf8(values[0])
    } else {
        spec_join_values(values.drop_last()) + ","@ + lossy_utf8(values.last())
    }
}

/// One header line: the key, `: `, the joined values, a newline.
pub open spec fn spec_header_line(e: HeaderEntry) -> Seq<char> {
    e.name@ + ": "@ + spec_join_values(views_of(e.values@)) + "\n"@
}

/// All header lines, in entry order.
pub open spec fn spec_header_lines(entries: Seq<HeaderEntry>) -> Seq<char>
    decreases entries.len(),
{
    if entries.len() == 0 {
        Seq::empty()
    } else {
        spec_header_lines(entries.drop_last()) + spec_header_line(entries.last())
    }
}

/// The full rendering of a snapshot: method and URL line, header lines,
/// body line.
pub open spec fn spec_render(r: Request) -> Seq<char> {
    r.method@ + " "@ + r.url@ + "\n"@ + spec_header_lines(r.headers.entries@) + lossy_utf8(
        r.body@,
    ) + "\n"@
}

/// Rendering determinism: the rendered text is a function of the snapshot
/// alone, so any two outcomes of rendering the same snapshot are equal.
pub proof fn lemma_render_deterministic(r: &Request, out1: String, out2: String)
    requires
        call_ensures(Request::render, (r,), out1),
        call_ensures(Request::render, (r,), out2),
    ensures
        out1@ == out2@,
{
}

/// Append one header's values, each lossy-decoded, joined with `,`.
fn append_joined_values(out: &mut String, values: &Vec<Vec<u8>>)
    ensures
        final(out)@ == old(out)@ + spec_join_values(views_of(values@)),
{
    let ghost orig = out@;
    let mut i: usize = 0;
    while i < values.len()
        invariant
            i <= values@.len(),
            out@ == orig + spec_join_values(views_of(values@.take(i as int))),
        decreases values@.len() - i,
    {
        proof {
            assert(views_of(values@.take(i + 1)).drop_last() =~= views_of(
                values@.take(i as int),
            ));
            assert(views_of(values@.take(i + 1)).last() == values@[i as int]@);
        }
        if i > 0 {
            out.append(",");
        }
        let decoded = utf8_lossy(values[i].as_slice());
        out.append(decoded.as_str());
        i = i + 1;
    }
    proof {
        assert(values@.take(values@.len() as int) =~= values@);
    }
}

impl Request {
    /// Render the snapshot as diagnostic text, deterministically.
    ///
    /// Pure with respect to the snapshot: equal snapshots render to equal
    /// text, and rendering never fails — bytes that are not valid UTF-8 are
    /// decoded with lossy substitution.
    pub fn render(&self) -> (out: String)
        ensures
            out@ == spec_render(*self),
    {
        let mut out = String::new();
        out.append(self.method.as_str());
        out.append(" ");
        out.append(self.url.as_str());
        out.append("\n");
        let ghost head = out@;
        let mut i: usize = 0;
        while i < self.headers.entries.len()
            invariant
                i <= self.headers.entries@.len(),
                out@ == head + spec_header_lines(self.headers.entries@.take(i as int)),
            decreases self.headers.entries@.len() - i,
        {
            proof {
                assert(self.headers.entries@.take(i + 1).drop_last() =~= self.headers.entries@
                    .take(i as int));
                assert(self.headers.entries@.take(i + 1).last() == self.headers.entries@[
                    i as int]);
            }
            let entry = &self.headers.entries[i];
            out.append(entry.name.as_str());
            out.append(": ");
            append_joined_values(&mut out, &entry.values);
            out.append("\n");
            i = i + 1;
        }
        proof {
            assert(self.headers.entries@.take(self.headers.entries@.len() as int)
                =~= self.headers.entries@);
        }
        let body_text = utf8_lossy(self.body.as_slice());
        out.append(body_text.as_str());
        out.append("\n");
        out
    }
}

} // verus!
