//! Driver protocol helpers: log summarizing, diff rendering, the CLI
//! config-push script, and the NETCONF payloads and framing.  The network
//! exchanges themselves happen outside; everything here is a pure
//! function of its inputs.

use vstd::prelude::*;
use vstd::string::StringExecFns;

use crate::text::{
    chars_vec, concat2, contains_seq, dec_seq, push_char, str_contains, string_from_chars,
    trim_back, trim_chars, trim_seq, u64_to_dec,
};

verus! {

/// The UTF-8 width of one character.
pub open spec fn char_len(c: char) -> int {
    if (c as u32) < 0x80 {
        1
    } else if (c as u32) < 0x800 {
        2
    } else if (c as u32) < 0x10000 {
        3
    } else {
        4
    }
}

/// The UTF-8 width of a character sequence.
pub open spec fn bytes_len(s: Seq<char>) -> int
    decreases s.len(),
{
    if s.len() == 0 {
        0
    } else {
        char_len(s[0]) + bytes_len(s.drop_first())
    }
}

proof fn lemma_bytes_len_nonneg(s: Seq<char>)
    ensures
        bytes_len(s) >= s.len(),
    decreases s.len(),
{
    if s.len() > 0 {
        lemma_bytes_len_nonneg(s.drop_first());
    }
}

proof fn lemma_bytes_len_snoc(t: Seq<char>, c: char)
    ensures
        bytes_len(t.push(c)) == bytes_len(t) + char_len(c),
    decreases t.len(),
{
    if t.len() == 0 {
        assert(t.push(c).drop_first() =~= t);
    } else {
        assert(t.push(c).drop_first() =~= t.drop_first().push(c));
        lemma_bytes_len_snoc(t.drop_first(), c);
    }
}

/// The longest prefix whose UTF-8 width stays within the budget.
pub open spec fn prefix_within(s: Seq<char>, budget: int) -> Seq<char>
    decreases s.len(),
{
    if s.len() == 0 {
        Seq::empty()
    } else if char_len(s[0]) <= budget {
        seq![s[0]] + prefix_within(s.drop_first(), budget - char_len(s[0]))
    } else {
        Seq::empty()
    }
}

fn char_len_exec(c: char) -> (n: usize)
    ensures
        n == char_len(c),
{
    let u = c as u32;
    if u < 0x80 {
        1
    } else if u < 0x800 {
        2
    } else if u < 0x10000 {
        3
    } else {
        4
    }
}

/// Takes the longest prefix within a byte budget; the flag reports
/// whether anything was cut.
fn clip_chars(t: &Vec<char>, limit: usize) -> (r: (Vec<char>, bool))
    ensures
        r.0@ == prefix_within(t@, limit as int),
        r.1 == (bytes_len(t@) > limit),
{
    let mut out: Vec<char> = Vec::new();
    let mut used: usize = 0;
    let mut i: usize = 0;
    proof {
        assert(t@.subrange(0, 0) =~= Seq::<char>::empty());
        assert(t@.subrange(0, t@.len() as int) =~= t@);
    }
    while i < t.len()
        invariant
            i <= t@.len(),
            out@ == t@.subrange(0, i as int),
            used == bytes_len(t@.subrange(0, i as int)),
            used <= limit,
            prefix_within(t@, limit as int) == out@ + prefix_within(
                t@.subrange(i as int, t@.len() as int),
                limit - used,
            ),
            bytes_len(t@) == used + bytes_len(t@.subrange(i as int, t@.len() as int)),
        decreases t@.len() - i,
    {
        let ghost rest = t@.subrange(i as int, t@.len() as int);
        let cl = char_len_exec(t[i]);
        proof {
            assert(rest[0] == t@[i as int]);
            assert(rest.drop_first() =~= t@.subrange(i + 1 as int, t@.len() as int));
        }
        if cl <= limit - used {
            out.push(t[i]);
            proof {
                assert(out@ =~= t@.subrange(0, i + 1 as int));
                lemma_bytes_len_snoc(t@.subrange(0, i as int), t@[i as int]);
                assert(t@.subrange(0, i + 1 as int) =~= t@.subrange(0, i as int).push(
                    t@[i as int],
                ));
                assert((out@.subrange(0, i as int) + seq![t@[i as int]]) + prefix_within(
                    rest.drop_first(),
                    limit - used - char_len(t@[i as int]),
                ) =~= out@ + prefix_within(rest.drop_first(), limit - used - char_len(t@[i as int])));
            }
            used = used + cl;
            i = i + 1;
        } else {
            proof {
                assert(prefix_within(rest, limit - used) =~= Seq::<char>::empty());
                assert(out@ + Seq::<char>::empty() =~= out@);
                lemma_bytes_len_nonneg(rest.drop_first());
            }
            return (out, true);
        }
    }
    proof {
        assert(prefix_within(Seq::<char>::empty(), limit - used) =~= Seq::<char>::empty());
        assert(out@ + Seq::<char>::empty() =~= out@);
        assert(bytes_len(Seq::<char>::empty()) == 0);
    }
    (out, false)
}

/// A trimmed command output, cut to the byte budget with a trailing
/// ellipsis when it was longer.  Characters are never split.
pub open spec fn summarize_spec(s: Seq<char>, limit: int) -> Seq<char> {
    let t = trim_seq(s);
    if bytes_len(t) > limit {
        prefix_within(t, limit).push('\u{2026}')
    } else {
        t
    }
}

/// Summarizes a command output for a log line: trimmed, and cut to the
/// byte budget with an ellipsis when longer.
pub fn summarize(output: &str, max_bytes: usize) -> (r: String)
    ensures
        r@ == summarize_spec(output@, max_bytes as int),
{
    let v = chars_vec(output);
    let t = trim_chars(&v);
    let (clip, clipped) = clip_chars(&t, max_bytes);
    if clipped {
        let mut s = string_from_chars(&clip);
        push_char(&mut s, '\u{2026}');
        s
    } else {
        string_from_chars(&t)
    }
}

/// An output cut to the byte budget; an empty output reads `ok`.
pub open spec fn truncate_spec(s: Seq<char>, limit: int) -> Seq<char> {
    if bytes_len(s) > limit {
        prefix_within(s, limit).push('\u{2026}')
    } else if s.len() == 0 {
        "ok"@
    } else {
        s
    }
}

/// Cuts an output to the byte budget with an ellipsis when longer;
/// an empty output reads `ok`.
pub fn truncate(s: &str, max_bytes: usize) -> (r: String)
    ensures
        r@ == truncate_spec(s@, max_bytes as int),
{
    let v = chars_vec(s);
    let (clip, clipped) = clip_chars(&v, max_bytes);
    if clipped {
        let mut out = string_from_chars(&clip);
        push_char(&mut out, '\u{2026}');
        out
    } else if v.len() == 0 {
        String::from_str("ok")
    } else {
        string_from_chars(&v)
    }
}

/// What `diff_changes` returns: the line-by-line change records of the
/// diff between two texts, each a tag (0 delete, 1 insert, 2 equal) and
/// the line's text.  The record list is a function of the two texts
/// alone.
pub uninterp spec fn diff_changes_of(before: Seq<char>, after: Seq<char>) -> Seq<(u8, Seq<char>)>;

/// Relies on similar's `TextDiff::from_lines` and `iter_all_changes`:
/// the line-oriented diff of the two texts, one change record per line,
/// computed from the two texts alone.
#[verifier::external_body]
fn diff_changes(before: &str, after: &str) -> (r: Vec<(u8, String)>)
    ensures
        r.deep_view() == diff_changes_of(before@, after@),
{
    similar::TextDiff::from_lines(before, after)
        .iter_all_changes()
        .map(
            |c| {
                let tag: u8 = match c.tag() {
                    similar::ChangeTag::Delete => 0,
                    similar::ChangeTag::Insert => 1,
                    similar::ChangeTag::Equal => 2,
                };
                (tag, c.to_string())
            },
        )
        .collect()
}

/// The sign column of one change record.
pub open spec fn sign_char(tag: u8) -> char {
    if tag == 0 {
        '-'
    } else if tag == 1 {
        '+'
    } else {
        ' '
    }
}

/// Change records rendered one per line: sign, text with trailing
/// whitespace removed, line feed.
pub open spec fn rendered_changes(cs: Seq<(u8, Seq<char>)>) -> Seq<char>
    decreases cs.len(),
{
    if cs.len() == 0 {
        Seq::empty()
    } else {
        rendered_changes(cs.drop_last()) + seq![sign_char(cs.last().0)] + trim_back(cs.last().1)
            + seq!['\n']
    }
}

/// The rendered unified diff of two texts, truncated to the first 200
/// change records.
pub open spec fn render_diff_spec(before: Seq<char>, after: Seq<char>) -> Seq<char> {
    let cs = diff_changes_of(before, after);
    let n = if cs.len() < 200 {
        cs.len() as int
    } else {
        200
    };
    rendered_changes(cs.subrange(0, n))
}

/// Renders the line-oriented diff between two configuration snapshots,
/// truncated to 200 change records.
pub fn render_diff(before: &str, after: &str) -> (r: String)
    ensures
        r@ == render_diff_spec(before@, after@),
{
    let changes = diff_changes(before, after);
    let ghost cs = changes.deep_view();
    let n = if changes.len() < 200 {
        changes.len()
    } else {
        200
    };
    let mut out = String::new();
    let mut i: usize = 0;
    proof {
        assert(cs.subrange(0, 0) =~= Seq::<(u8, Seq<char>)>::empty());
        assert(out@ =~= rendered_changes(cs.subrange(0, 0)));
    }
    while i < n
        invariant
            cs == changes.deep_view(),
            cs.len() == changes@.len(),
            n <= changes@.len(),
            i <= n,
            out@ == rendered_changes(cs.subrange(0, i as int)),
        decreases n - i,
    {
        let tag = changes[i].0;
        let sign = if tag == 0 {
            '-'
        } else if tag == 1 {
            '+'
        } else {
            ' '
        };
        push_char(&mut out, sign);
        let tv = chars_vec(changes[i].1.as_str());
        let trimmed = crate::text::trim_end_chars(&tv);
        let tstr = string_from_chars(&trimmed);
        out.append(tstr.as_str());
        push_char(&mut out, '\n');
        proof {
            let pre = cs.subrange(0, i + 1 as int);
            assert(pre.drop_last() =~= cs.subrange(0, i as int));
            assert(pre.last() == cs[i as int]);
            assert(cs[i as int].1 == changes@[i as int].1@);
            assert(out@ =~= rendered_changes(pre));
        }
        i = i + 1;
    }
    out
}

/// The script a CLI config push sends: the snippet (trimmed) wrapped in
/// enter-config, end and save markers.
pub fn ios_config_script(snippet: &str) -> (r: String)
    ensures
        r@ == "configure terminal\n"@ + trim_seq(snippet@) + "\nend\nwrite memory"@,
{
    let v = chars_vec(snippet);
    let t = trim_chars(&v);
    let ts = string_from_chars(&t);
    let head = concat2("configure terminal\n", ts.as_str());
    concat2(head.as_str(), "\nend\nwrite memory")
}

/// The script the generic SSH driver streams: the snippet as given,
/// wrapped in the same markers.
pub fn ssh_config_script(snippet: &str) -> (r: String)
    ensures
        r@ == "configure terminal\n"@ + snippet@ + "\nend\nwrite memory"@,
{
    let head = concat2("configure terminal\n", snippet);
    concat2(head.as_str(), "\nend\nwrite memory")
}

/// The end-of-message marker that frames NETCONF exchanges.
pub const NETCONF_EOM: &'static str = "]]>]]>";

/// The bytes of the end-of-message marker.
pub open spec fn eom_bytes() -> Seq<u8> {
    seq![93u8, 93u8, 62u8, 93u8, 93u8, 62u8]
}

/// The hello message a NETCONF session opens with, marker included.
pub fn netconf_hello() -> (r: String)
    ensures
        r@ == (
        "<?xml version=\"1.0\" encoding=\"UTF-8\"?>\n<hello xmlns=\"urn:ietf:params:xml:ns:netconf:base:1.0\">\n  <capabilities>\n    <capability>urn:ietf:params:netconf:base:1.0</capability>\n  </capabilities>\n</hello>]]>]]>"@),
{
    String::from_str(
        "<?xml version=\"1.0\" encoding=\"UTF-8\"?>\n<hello xmlns=\"urn:ietf:params:xml:ns:netconf:base:1.0\">\n  <capabilities>\n    <capability>urn:ietf:params:netconf:base:1.0</capability>\n  </capabilities>\n</hello>]]>]]>",
    )
}

/// One framed RPC envelope around an inner payload, with its message id.
pub fn netconf_rpc_payload(message_id: u64, inner: &str) -> (r: String)
    ensures
        r@ == "<?xml version=\"1.0\" encoding=\"UTF-8\"?><rpc message-id=\""@ + dec_seq(
            message_id as int,
        ) + "\" xmlns=\"urn:ietf:params:xml:ns:netconf:base:1.0\">"@ + inner@ + "</rpc>]]>]]>"@,
{
    let id = u64_to_dec(message_id);
    let a = concat2("<?xml version=\"1.0\" encoding=\"UTF-8\"?><rpc message-id=\"", id.as_str());
    let b = concat2(a.as_str(), "\" xmlns=\"urn:ietf:params:xml:ns:netconf:base:1.0\">");
    let c = concat2(b.as_str(), inner);
    concat2(c.as_str(), "</rpc>]]>]]>")
}

/// The locked candidate edit payload that merges a snippet.
pub fn netconf_edit_config_payload(snippet: &str) -> (r: String)
    ensures
        r@ ==
            "<edit-config><target><candidate/></target><default-operation>merge</default-operation><config><configuration-text><![CDATA["@
            + snippet@ + "]]></configuration-text></config></edit-config>"@,
{
    let a = concat2(
        "<edit-config><target><candidate/></target><default-operation>merge</default-operation><config><configuration-text><![CDATA[",
        snippet,
    );
    concat2(a.as_str(), "]]></configuration-text></config></edit-config>")
}

/// The override load payload a rollback sends before committing.
pub fn netconf_rollback_payload(snapshot: &str) -> (r: String)
    ensures
        r@ == "<load-configuration action=\"override\"><configuration-text><![CDATA["@ + snapshot@
            + "]]></configuration-text></load-configuration>"@,
{
    let a = concat2(
        "<load-configuration action=\"override\"><configuration-text><![CDATA[",
        snapshot,
    );
    concat2(a.as_str(), "]]></configuration-text></load-configuration>")
}

/// A read buffer holds a complete NETCONF frame once it ends with the
/// end-of-message marker.
pub fn netconf_frame_complete(buf: &Vec<u8>) -> (r: bool)
    ensures
        r == (buf@.len() >= 6 && buf@.subrange(buf@.len() - 6, buf@.len() as int) == eom_bytes()),
{
    if buf.len() < 6 {
        return false;
    }
    let n = buf.len();
    let r = buf[n - 6] == 93 && buf[n - 5] == 93 && buf[n - 4] == 62 && buf[n - 3] == 93 && buf[n
        - 2] == 93 && buf[n - 1] == 62;
    proof {
        let tail = buf@.subrange(buf@.len() - 6, buf@.len() as int);
        if r {
            assert(tail =~= eom_bytes());
        } else {
            assert(tail.len() == 6);
            if tail == eom_bytes() {
                assert(tail[0] == 93u8 && tail[1] == 93u8 && tail[2] == 62u8 && tail[3] == 93u8
                    && tail[4] == 93u8 && tail[5] == 62u8);
            }
        }
    }
    r
}

/// Removes the end-of-message marker from a complete frame.
pub fn netconf_strip_eom(buf: &mut Vec<u8>)
    requires
        old(buf)@.len() >= 6,
    ensures
        final(buf)@ == old(buf)@.subrange(0, old(buf)@.len() - 6),
{
    let n = buf.len() - 6;
    buf.truncate(n);
}

/// A NETCONF reply is accepted unless it reports an rpc-error without an
/// ok element.
pub fn netconf_reply_ok(reply: &str) -> (r: bool)
    ensures
        r == (contains_seq(reply@, "<ok/>"@) || !contains_seq(reply@, "<rpc-error>"@)),
{
    str_contains(reply, "<ok/>") || !str_contains(reply, "<rpc-error>")
}

} // verus!
