//! The REST driver families' pure logic: NX-API payloads and reply
//! envelopes, Meraki endpoints and payloads, JSON string escaping, and
//! the linear retry policy.  The HTTP exchanges themselves happen
//! outside.

use vstd::prelude::*;
use vstd::string::StringExecFns;

use crate::model::{Credential, DeviceV};
use crate::text::{
    chars_eq, chars_vec, concat2, dec_seq, digit_char, lower_chars, lower_seq, match_at,
    push_char, starts_with_chars, str_eq, string_from_chars, usize_to_dec,
};

verus! {

/// The lowercase hexadecimal digit for a value below sixteen.
pub open spec fn hex_char(d: int) -> char {
    if d < 10 {
        digit_char(d)
    } else if d == 10 {
        'a'
    } else if d == 11 {
        'b'
    } else if d == 12 {
        'c'
    } else if d == 13 {
        'd'
    } else if d == 14 {
        'e'
    } else {
        'f'
    }
}

/// How one character is written inside a JSON string literal.
pub open spec fn esc_char(c: char) -> Seq<char> {
    if c == '"' {
        seq!['\\', '"']
    } else if c == '\\' {
        seq!['\\', '\\']
    } else if c == '\n' {
        seq!['\\', 'n']
    } else if c == '\r' {
        seq!['\\', 'r']
    } else if c == '\t' {
        seq!['\\', 't']
    } else if (c as u32) < 0x20 {
        seq!['\\', 'u', '0', '0', hex_char((c as u32) as int / 16), hex_char((c as u32) as int % 16)]
    } else {
        seq![c]
    }
}

/// A text escaped for use inside a JSON string literal.
pub open spec fn json_escape_seq(s: Seq<char>) -> Seq<char>
    decreases s.len(),
{
    if s.len() == 0 {
        Seq::empty()
    } else {
        json_escape_seq(s.drop_last()) + esc_char(s.last())
    }
}

fn hex_char_exec(d: u32) -> (c: char)
    requires
        d < 16,
    ensures
        c == hex_char(d as int),
{
    if d == 0 {
        '0'
    } else if d == 1 {
        '1'
    } else if d == 2 {
        '2'
    } else if d == 3 {
        '3'
    } else if d == 4 {
        '4'
    } else if d == 5 {
        '5'
    } else if d == 6 {
        '6'
    } else if d == 7 {
        '7'
    } else if d == 8 {
        '8'
    } else if d == 9 {
        '9'
    } else if d == 10 {
        'a'
    } else if d == 11 {
        'b'
    } else if d == 12 {
        'c'
    } else if d == 13 {
        'd'
    } else if d == 14 {
        'e'
    } else {
        'f'
    }
}

/// Escapes a text for use inside a JSON string literal.
pub fn json_escape(s: &str) -> (r: String)
    ensures
        r@ == json_escape_seq(s@),
{
    let v = chars_vec(s);
    let mut out = String::new();
    let mut i: usize = 0;
    proof {
        assert(out@ =~= json_escape_seq(v@.subrange(0, 0)));
    }
    while i < v.len()
        invariant
            v@ == s@,
            i <= v@.len(),
            out@ == json_escape_seq(v@.subrange(0, i as int)),
        decreases v@.len() - i,
    {
        let c = v[i];
        if c == '"' {
            push_char(&mut out, '\\');
            push_char(&mut out, '"');
        } else if c == '\\' {
            push_char(&mut out, '\\');
            push_char(&mut out, '\\');
        } else if c == '\n' {
            push_char(&mut out, '\\');
            push_char(&mut out, 'n');
        } else if c == '\r' {
            push_char(&mut out, '\\');
            push_char(&mut out, 'r');
        } else if c == '\t' {
            push_char(&mut out, '\\');
            push_char(&mut out, 't');
        } else if (c as u32) < 0x20 {
            push_char(&mut out, '\\');
            push_char(&mut out, 'u');
            push_char(&mut out, '0');
            push_char(&mut out, '0');
            push_char(&mut out, hex_char_exec((c as u32) / 16));
            push_char(&mut out, hex_char_exec((c as u32) % 16));
        } else {
            push_char(&mut out, c);
        }
        proof {
            let pre = v@.subrange(0, i + 1 as int);
            assert(pre.drop_last() =~= v@.subrange(0, i as int));
            assert(pre.last() == v@[i as int]);
            assert(out@ =~= json_escape_seq(pre));
        }
        i = i + 1;
    }
    proof {
        assert(v@.subrange(0, v@.len() as int) =~= v@);
    }
    out
}

/// The NX-API request body for one input, given the call type
/// (`cli_show` or `cli_conf`) and session id.
pub open spec fn nxapi_payload_spec(kind: Seq<char>, sid: Seq<char>, input: Seq<char>) -> Seq<
    char,
> {
    "{\"ins_api\":{\"version\":\"1.2\",\"type\":\""@ + kind + "\",\"chunk\":\"0\",\"sid\":\""@ + sid
        + "\",\"input\":\""@ + json_escape_seq(input)
        + "\",\"output_format\":\"json\"}}"@
}

/// Builds the NX-API request body for one input.
pub fn nxapi_payload(kind: &str, sid: &str, input: &str) -> (r: String)
    ensures
        r@ == nxapi_payload_spec(kind@, sid@, input@),
{
    let esc = json_escape(input);
    let a = concat2("{\"ins_api\":{\"version\":\"1.2\",\"type\":\"", kind);
    let b = concat2(a.as_str(), "\",\"chunk\":\"0\",\"sid\":\"");
    let c = concat2(b.as_str(), sid);
    let d = concat2(c.as_str(), "\",\"input\":\"");
    let e = concat2(d.as_str(), esc.as_str());
    concat2(e.as_str(), "\",\"output_format\":\"json\"}}")
}

/// One command's entry in an NX-API reply.
#[derive(Debug)]
pub struct NxapiOutput {
    pub code: Option<String>,
    pub msg: Option<String>,
}

/// The mathematical image of one reply entry.
pub ghost struct NxapiOutputV {
    pub code: Option<Seq<char>>,
    pub msg: Option<Seq<char>>,
}

impl View for NxapiOutput {
    type V = NxapiOutputV;

    open spec fn view(&self) -> NxapiOutputV {
        NxapiOutputV { code: self.code.deep_view(), msg: self.msg.deep_view() }
    }
}

impl DeepView for NxapiOutput {
    type V = NxapiOutputV;

    open spec fn deep_view(&self) -> NxapiOutputV {
        self.view()
    }
}

/// An entry succeeded when it carries no code or the code `200`.
pub open spec fn output_ok(o: NxapiOutputV) -> bool {
    match o.code {
        Some(c) => c == "200"@,
        None => true,
    }
}

impl NxapiOutput {
    /// Whether this entry reports success.
    pub fn is_success(&self) -> (r: bool)
        ensures
            r == output_ok(self@),
    {
        match &self.code {
            Some(c) => str_eq(c.as_str(), "200"),
            None => true,
        }
    }
}

/// The entry list of an NX-API reply.
#[derive(Debug)]
pub struct NxapiOutputs {
    pub output: Vec<NxapiOutput>,
}

/// The message of an entry, `ok` when it has none.
pub open spec fn msg_or_ok(o: NxapiOutputV) -> Seq<char> {
    match o.msg {
        Some(m) => m,
        None => "ok"@,
    }
}

/// The code of an entry, `200` when it has none.
pub open spec fn code_or_200(o: NxapiOutputV) -> Seq<char> {
    match o.code {
        Some(c) => c,
        None => "200"@,
    }
}

/// Parts joined with a separator between neighbours.
pub open spec fn join_sep(parts: Seq<Seq<char>>, sep: Seq<char>) -> Seq<char>
    decreases parts.len(),
{
    if parts.len() == 0 {
        Seq::empty()
    } else if parts.len() == 1 {
        parts[0]
    } else {
        join_sep(parts.drop_last(), sep) + sep + parts.last()
    }
}

/// The one-line message of an NX-API reply to one command.
pub open spec fn nxapi_message_line(device: Seq<char>, idx: int, o: NxapiOutputV) -> Seq<char> {
    "["@ + device + "] cmd#"@ + dec_seq(idx) + " => code="@ + code_or_200(o) + " msg="@ + msg_or_ok(
        o,
    )
}

impl NxapiOutputs {
    /// Whether every entry reports success.
    pub fn is_success(&self) -> (r: bool)
        ensures
            r == (forall|k: int| 0 <= k < self.output@.len() ==> output_ok(
                #[trigger] self.output.deep_view()[k],
            )),
    {
        let mut i: usize = 0;
        while i < self.output.len()
            invariant
                i <= self.output@.len(),
                forall|k: int| 0 <= k < i ==> output_ok(#[trigger] self.output.deep_view()[k]),
            decreases self.output@.len() - i,
        {
            if !self.output[i].is_success() {
                assert(!output_ok(self.output.deep_view()[i as int]));
                return false;
            }
            i = i + 1;
        }
        true
    }

    /// The reply's messages joined with `; `, or nothing when the reply
    /// carried no entries.
    pub fn summary(&self) -> (r: Option<String>)
        ensures
            match r {
                Some(s) => self.output@.len() > 0 && s@ == join_sep(
                    self.output.deep_view().map_values(|o: NxapiOutputV| msg_or_ok(o)),
                    "; "@,
                ),
                None => self.output@.len() == 0,
            },
    {
        if self.output.len() == 0 {
            return None;
        }
        let ghost msgs = self.output.deep_view().map_values(|o: NxapiOutputV| msg_or_ok(o));
        let first = match &self.output[0].msg {
            Some(m) => m.clone(),
            None => String::from_str("ok"),
        };
        let mut acc = first;
        let mut i: usize = 1;
        proof {
            assert(msgs.subrange(0, 1) =~= seq![msgs[0]]);
            assert(acc@ == join_sep(msgs.subrange(0, 1), "; "@));
        }
        while i < self.output.len()
            invariant
                msgs == self.output.deep_view().map_values(|o: NxapiOutputV| msg_or_ok(o)),
                msgs.len() == self.output@.len(),
                1 <= i <= self.output@.len(),
                acc@ == join_sep(msgs.subrange(0, i as int), "; "@),
            decreases self.output@.len() - i,
        {
            let next = match &self.output[i].msg {
                Some(m) => m.clone(),
                None => String::from_str("ok"),
            };
            let joined = concat2(acc.as_str(), "; ");
            acc = concat2(joined.as_str(), next.as_str());
            proof {
                let pre = msgs.subrange(0, i + 1 as int);
                assert(pre.drop_last() =~= msgs.subrange(0, i as int));
                assert(pre.last() == msgs[i as int]);
                assert(pre.len() > 1);
                assert(acc@ =~= join_sep(pre, "; "@));
            }
            i = i + 1;
        }
        proof {
            assert(msgs.subrange(0, msgs.len() as int) =~= msgs);
        }
        Some(acc)
    }

    /// One log line per entry, naming the device, the command index and
    /// the entry's code and message.
    pub fn command_messages(&self, device: &str) -> (r: Vec<String>)
        ensures
            r@.len() == self.output@.len(),
            forall|k: int|
                0 <= k < r@.len() ==> (#[trigger] r.deep_view()[k]) == nxapi_message_line(
                    device@,
                    k,
                    self.output.deep_view()[k],
                ),
    {
        let mut r: Vec<String> = Vec::new();
        let mut i: usize = 0;
        while i < self.output.len()
            invariant
                i <= self.output@.len(),
                r@.len() == i,
                forall|k: int|
                    0 <= k < i ==> (#[trigger] r.deep_view()[k]) == nxapi_message_line(
                        device@,
                        k,
                        self.output.deep_view()[k],
                    ),
            decreases self.output@.len() - i,
        {
            let idx = usize_to_dec(i);
            let code = match &self.output[i].code {
                Some(c) => c.clone(),
                None => String::from_str("200"),
            };
            let msg = match &self.output[i].msg {
                Some(m) => m.clone(),
                None => String::from_str("ok"),
            };
            let a = concat2("[", device);
            let b = concat2(a.as_str(), "] cmd#");
            let c = concat2(b.as_str(), idx.as_str());
            let d = concat2(c.as_str(), " => code=");
            let e = concat2(d.as_str(), code.as_str());
            let f = concat2(e.as_str(), " msg=");
            let line = concat2(f.as_str(), msg.as_str());
            proof {
                assert(line@ =~= nxapi_message_line(device@, i as int, self.output.deep_view()[
                    i as int
                ]));
            }
            let ghost old_dv = r.deep_view();
            r.push(line);
            proof {
                assert(r.deep_view() =~= old_dv.push(line@));
            }
            i = i + 1;
        }
        r
    }
}

/// The envelope of an NX-API reply.
#[derive(Debug)]
pub struct NxapiEnvelope {
    pub ins_api: NxapiInner,
}

/// The inner object of an NX-API reply.
#[derive(Debug)]
pub struct NxapiInner {
    pub outputs: NxapiOutputs,
}

impl NxapiEnvelope {
    /// Whether every entry of the reply reports success.
    pub fn is_success(&self) -> (r: bool)
        ensures
            r == (forall|k: int| 0 <= k < self.ins_api.outputs.output@.len() ==> output_ok(
                #[trigger] self.ins_api.outputs.output.deep_view()[k],
            )),
    {
        self.ins_api.outputs.is_success()
    }
}

/// A parsed NX-API reply together with its raw body.
#[derive(Debug)]
pub struct NxapiResponse {
    pub raw: String,
    pub parsed: NxapiEnvelope,
}

impl NxapiResponse {
    /// The reply's joined messages, or `success` for an empty reply.
    pub fn summary(&self) -> (r: String)
        ensures
            self.parsed.ins_api.outputs.output@.len() == 0 ==> r@ == "success"@,
            self.parsed.ins_api.outputs.output@.len() > 0 ==> r@ == join_sep(
                self.parsed.ins_api.outputs.output.deep_view().map_values(
                    |o: NxapiOutputV| msg_or_ok(o),
                ),
                "; "@,
            ),
    {
        match self.parsed.ins_api.outputs.summary() {
            Some(s) => s,
            None => String::from_str("success"),
        }
    }

    /// One log line per command in the reply.
    pub fn command_summaries(&self, device: &str) -> (r: Vec<String>)
        ensures
            r@.len() == self.parsed.ins_api.outputs.output@.len(),
            forall|k: int|
                0 <= k < r@.len() ==> (#[trigger] r.deep_view()[k]) == nxapi_message_line(
                    device@,
                    k,
                    self.parsed.ins_api.outputs.output.deep_view()[k],
                ),
    {
        self.parsed.ins_api.outputs.command_messages(device)
    }
}

/// One command's entry in an Arista eAPI reply, reduced to what the
/// driver reads: the textual output and any messages.
#[derive(Debug)]
pub struct EapiEntry {
    pub output: Option<String>,
    pub messages: Vec<String>,
}

/// The text of one eAPI entry: its first message, else its output, else
/// `ok`.
pub open spec fn eapi_entry_text(output: Option<Seq<char>>, messages: Seq<Seq<char>>) -> Seq<
    char,
> {
    if messages.len() > 0 {
        messages[0]
    } else {
        match output {
            Some(o) => o,
            None => "ok"@,
        }
    }
}

/// One log line per eAPI reply entry, or the no-output notice when the
/// reply carried none.
pub fn eapi_command_summaries(device: &str, entries: &Vec<EapiEntry>) -> (r: Vec<String>)
    ensures
        entries@.len() == 0 ==> r.deep_view() == seq![
            "["@ + device@ + "] eAPI call produced no output"@,
        ],
        entries@.len() > 0 ==> {
            &&& r@.len() == entries@.len()
            &&& forall|k: int|
                0 <= k < r@.len() ==> (#[trigger] r.deep_view()[k]) == "["@ + device@ + "] cmd#"@
                    + dec_seq(k) + " => "@ + crate::text::trim_seq(
                    eapi_entry_text(
                        entries@[k].output.deep_view(),
                        entries@[k].messages.deep_view(),
                    ),
                )
        },
{
    if entries.len() == 0 {
        let a = concat2("[", device);
        let line = concat2(a.as_str(), "] eAPI call produced no output");
        let mut r: Vec<String> = Vec::new();
        r.push(line);
        proof {
            assert(r.deep_view() =~= seq!["["@ + device@ + "] eAPI call produced no output"@]);
        }
        return r;
    }
    let mut r: Vec<String> = Vec::new();
    let mut i: usize = 0;
    while i < entries.len()
        invariant
            i <= entries@.len(),
            r@.len() == i,
            forall|k: int|
                0 <= k < i ==> (#[trigger] r.deep_view()[k]) == "["@ + device@ + "] cmd#"@
                    + dec_seq(k) + " => "@ + crate::text::trim_seq(
                    eapi_entry_text(
                        entries@[k].output.deep_view(),
                        entries@[k].messages.deep_view(),
                    ),
                ),
        decreases entries@.len() - i,
    {
        let text: String = if entries[i].messages.len() > 0 {
            entries[i].messages[0].clone()
        } else {
            match &entries[i].output {
                Some(o) => o.clone(),
                None => String::from_str("ok"),
            }
        };
        let tv = chars_vec(text.as_str());
        let trimmed = crate::text::trim_chars(&tv);
        let tstr = string_from_chars(&trimmed);
        let idx = usize_to_dec(i);
        let a = concat2("[", device);
        let b = concat2(a.as_str(), "] cmd#");
        let c = concat2(b.as_str(), idx.as_str());
        let d = concat2(c.as_str(), " => ");
        let line = concat2(d.as_str(), tstr.as_str());
        proof {
            assert(line@ =~= "["@ + device@ + "] cmd#"@ + dec_seq(i as int) + " => "@
                + crate::text::trim_seq(
                eapi_entry_text(
                    entries@[i as int].output.deep_view(),
                    entries@[i as int].messages.deep_view(),
                ),
            ));
        }
        let ghost old_dv = r.deep_view();
        r.push(line);
        proof {
            assert(r.deep_view() =~= old_dv.push(line@));
        }
        i = i + 1;
    }
    r
}

/// An Arista device is driven over eAPI when a tag asks for it
/// (`transport:eapi`, compared ASCII case-insensitively) or its
/// management address already names an HTTP scheme; otherwise over the
/// CLI by SSH.
pub open spec fn arista_uses_eapi_spec(d: DeviceV) -> bool {
    (exists|i: int|
        0 <= i < d.tags.len() && lower_seq(#[trigger] d.tags[i]) == "transport:eapi"@) || match_at(
        d.mgmt_address,
        "http://"@,
        0,
    ) || match_at(d.mgmt_address, "https://"@, 0)
}

/// Decides the Arista transport for one device.
pub fn arista_uses_eapi(device: &crate::model::Device) -> (r: bool)
    ensures
        r == arista_uses_eapi_spec(device@),
{
    proof {
        reveal_strlit("http://");
        reveal_strlit("https://");
    }
    let wanted = chars_vec("transport:eapi");
    let mut i: usize = 0;
    while i < device.tags.len()
        invariant
            wanted@ == "transport:eapi"@,
            i <= device.tags@.len(),
            forall|k: int| 0 <= k < i ==> lower_seq(#[trigger] device@.tags[k]) != "transport:eapi"@,
        decreases device.tags@.len() - i,
    {
        let tv = chars_vec(device.tags[i].as_str());
        let lowered = lower_chars(&tv);
        if chars_eq(&lowered, &wanted) {
            assert(lower_seq(device@.tags[i as int]) == "transport:eapi"@);
            return true;
        }
        i = i + 1;
    }
    let av = chars_vec(device.mgmt_address.as_str());
    let scheme = starts_with_chars(&av, &chars_vec("http://")) || starts_with_chars(
        &av,
        &chars_vec("https://"),
    );
    proof {
        if !scheme && arista_uses_eapi_spec(device@) {
            let k = choose|k: int|
                0 <= k < device@.tags.len() && lower_seq(#[trigger] device@.tags[k])
                    == "transport:eapi"@;
        }
    }
    scheme
}

/// The eAPI endpoint of a device: its management address when it already
/// names a scheme (any trailing slash dropped), else HTTPS to it.
pub open spec fn eapi_endpoint_spec(addr: Seq<char>) -> Seq<char> {
    if crate::text::match_at(addr, "http://"@, 0) || crate::text::match_at(addr, "https://"@, 0) {
        strip_trailing_slashes(addr) + "/command-api"@
    } else {
        "https://"@ + addr + "/command-api"@
    }
}

/// The sequence with trailing slashes removed.
pub open spec fn strip_trailing_slashes(s: Seq<char>) -> Seq<char>
    decreases s.len(),
{
    if s.len() > 0 && s.last() == '/' {
        strip_trailing_slashes(s.drop_last())
    } else {
        s
    }
}

/// The eAPI endpoint a device's management address points at.
pub fn eapi_endpoint(mgmt_address: &str) -> (r: String)
    ensures
        r@ == eapi_endpoint_spec(mgmt_address@),
{
    proof {
        reveal_strlit("http://");
        reveal_strlit("https://");
    }
    let v = chars_vec(mgmt_address);
    let starts_http = crate::text::starts_with_chars(&v, &chars_vec("http://"));
    let starts_https = crate::text::starts_with_chars(&v, &chars_vec("https://"));
    if starts_http || starts_https {
        let mut b: usize = v.len();
        proof {
            assert(v@.subrange(0, v@.len() as int) =~= v@);
        }
        while b > 0 && v[b - 1] == '/'
            invariant
                b <= v@.len(),
                strip_trailing_slashes(v@) == strip_trailing_slashes(v@.subrange(0, b as int)),
            decreases b,
        {
            proof {
                assert(v@.subrange(0, b as int).drop_last() =~= v@.subrange(0, b - 1 as int));
            }
            b = b - 1;
        }
        let mut head: Vec<char> = Vec::new();
        let mut i: usize = 0;
        while i < b
            invariant
                i <= b <= v@.len(),
                head@ =~= v@.subrange(0, i as int),
            decreases b - i,
        {
            head.push(v[i]);
            proof {
                assert(head@ =~= v@.subrange(0, i + 1 as int));
            }
            i = i + 1;
        }
        proof {
            assert(strip_trailing_slashes(v@.subrange(0, b as int)) == v@.subrange(0, b as int));
        }
        let hs = string_from_chars(&head);
        concat2(hs.as_str(), "/command-api")
    } else {
        let a = concat2("https://", mgmt_address);
        concat2(a.as_str(), "/command-api")
    }
}

/// The eAPI JSON-RPC request body that runs a command list.
pub open spec fn eapi_run_cmds_spec(cmds: Seq<Seq<char>>) -> Seq<char> {
    "{\"jsonrpc\":\"2.0\",\"method\":\"runCmds\",\"params\":{\"version\":1,\"cmds\":"@
        + json_string_array(cmds) + ",\"format\":\"json\"},\"id\":\"netrust\"}"@
}

/// Builds the eAPI JSON-RPC request body for a command list.
pub fn eapi_run_cmds_payload(commands: &Vec<String>) -> (r: String)
    ensures
        r@ == eapi_run_cmds_spec(commands.deep_view()),
{
    let array = json_string_array_exec(commands);
    let mut out = String::from_str(
        "{\"jsonrpc\":\"2.0\",\"method\":\"runCmds\",\"params\":{\"version\":1,\"cmds\":",
    );
    out.append(array.as_str());
    out.append(",\"format\":\"json\"},\"id\":\"netrust\"}");
    out
}

/// The Meraki dashboard API base.
pub const MERAKI_API_BASE: &'static str = "https://api.meraki.com/api/v1";

/// The two operations the Meraki driver performs.
#[derive(Clone, Copy, PartialEq, Eq, Structural, Debug)]
pub enum MerakiOperation {
    CommandBatch,
    ConfigPush,
}

impl MerakiOperation {
    /// The operation's short label.
    pub fn as_str(&self) -> (r: &'static str)
        ensures
            *self == MerakiOperation::CommandBatch ==> r@ == "command_batch"@,
            *self == MerakiOperation::ConfigPush ==> r@ == "config_push"@,
    {
        match self {
            MerakiOperation::CommandBatch => "command_batch",
            MerakiOperation::ConfigPush => "config_push",
        }
    }

    /// The dashboard endpoint the operation posts to for a network.
    pub fn endpoint(&self, network_identifier: &str) -> (r: String)
        ensures
            *self == MerakiOperation::CommandBatch ==> r@ == MERAKI_API_BASE@ + "/networks/"@
                + network_identifier@ + "/commands/batch"@,
            *self == MerakiOperation::ConfigPush ==> r@ == MERAKI_API_BASE@ + "/networks/"@
                + network_identifier@ + "/config_templates/apply"@,
    {
        let a = concat2(MERAKI_API_BASE, "/networks/");
        let b = concat2(a.as_str(), network_identifier);
        match self {
            MerakiOperation::CommandBatch => concat2(b.as_str(), "/commands/batch"),
            MerakiOperation::ConfigPush => concat2(b.as_str(), "/config_templates/apply"),
        }
    }
}

/// A JSON string literal: the text escaped, between double quotes.
pub open spec fn json_string(s: Seq<char>) -> Seq<char> {
    seq!['"'] + json_escape_seq(s) + seq!['"']
}

/// A JSON array of string literals.
pub open spec fn json_string_array(items: Seq<Seq<char>>) -> Seq<char> {
    seq!['['] + join_sep(items.map_values(|s: Seq<char>| json_string(s)), seq![',']) + seq![']']
}

/// Renders a JSON string literal.
pub fn json_string_exec(s: &str) -> (r: String)
    ensures
        r@ == json_string(s@),
{
    let mut r = String::new();
    push_char(&mut r, '"');
    let esc = json_escape(s);
    r.append(esc.as_str());
    push_char(&mut r, '"');
    proof {
        assert(r@ =~= json_string(s@));
    }
    r
}

/// Renders a JSON array of string literals.
pub fn json_string_array_exec(items: &Vec<String>) -> (r: String)
    ensures
        r@ == json_string_array(items.deep_view()),
{
    let ghost parts = items.deep_view().map_values(|s: Seq<char>| json_string(s));
    let mut body = String::new();
    let mut i: usize = 0;
    proof {
        assert(parts.subrange(0, 0) =~= Seq::<Seq<char>>::empty());
        assert(body@ =~= join_sep(parts.subrange(0, 0), seq![',']));
    }
    while i < items.len()
        invariant
            parts == items.deep_view().map_values(|s: Seq<char>| json_string(s)),
            parts.len() == items@.len(),
            i <= items@.len(),
            body@ == join_sep(parts.subrange(0, i as int), seq![',']),
        decreases items@.len() - i,
    {
        if i > 0 {
            push_char(&mut body, ',');
        }
        let quoted = json_string_exec(items[i].as_str());
        body.append(quoted.as_str());
        proof {
            let pre = parts.subrange(0, i + 1 as int);
            assert(pre.drop_last() =~= parts.subrange(0, i as int));
            assert(pre.last() == parts[i as int]);
            assert(parts[i as int] == json_string(items@[i as int]@));
            assert(body@ =~= join_sep(pre, seq![',']));
        }
        i = i + 1;
    }
    proof {
        assert(parts.subrange(0, parts.len() as int) =~= parts);
    }
    let mut out = String::new();
    push_char(&mut out, '[');
    out.append(body.as_str());
    push_char(&mut out, ']');
    proof {
        assert(out@ =~= json_string_array(items.deep_view()));
    }
    out
}

/// The Meraki command-batch request body.
pub fn meraki_batch_payload(device_id: &str, commands: &Vec<String>) -> (r: String)
    ensures
        r@ == "{\"device_id\":"@ + json_string(device_id@) + ",\"commands\":"@
            + json_string_array(commands.deep_view()) + "}"@,
{
    let id = json_string_exec(device_id);
    let array = json_string_array_exec(commands);
    let mut out = String::from_str("{\"device_id\":");
    out.append(id.as_str());
    out.append(",\"commands\":");
    out.append(array.as_str());
    out.append("}");
    out
}

/// The Meraki config-push request body.
pub fn meraki_config_payload(device_id: &str, snippet: &str) -> (r: String)
    ensures
        r@ == "{\"device_id\":"@ + json_string(device_id@) + ",\"template_snippet\":"@
            + json_string(snippet@) + "}"@,
{
    let id = json_string_exec(device_id);
    let body = json_string_exec(snippet);
    let mut out = String::from_str("{\"device_id\":");
    out.append(id.as_str());
    out.append(",\"template_snippet\":");
    out.append(body.as_str());
    out.append("}");
    out
}

/// The API key the Meraki driver uses: a token as-is, or a password in a
/// pinch; key-based credentials cannot serve as an API key.
pub fn meraki_api_key(credential: &Credential, device_name: &str) -> (r: Result<String, String>)
    ensures
        match credential {
            Credential::Token { token } => r matches Ok(k) && k@ == token@,
            Credential::UserPassword { password, .. } => r matches Ok(k) && k@ == password@,
            Credential::SshKey { .. } => r matches Err(m) && m@ == "unsupported credential type "@
                + crate::model::credential_redacted_spec(*credential) + " for Meraki device "@
                + device_name@,
        },
{
    match credential {
        Credential::Token { token } => Ok(token.clone()),
        Credential::UserPassword { username: _, password } => Ok(password.clone()),
        Credential::SshKey { .. } => {
            let shape = credential.redacted();
            let a = concat2("unsupported credential type ", shape.as_str());
            let b = concat2(a.as_str(), " for Meraki device ");
            Err(concat2(b.as_str(), device_name))
        },
    }
}

/// The linear backoff before a retried REST request: 200 milliseconds
/// times the attempts made so far, saturating.
pub fn backoff_delay_ms(attempt: u64) -> (r: u64)
    ensures
        r == if 200 * (attempt + 1) <= u64::MAX {
            200 * (attempt + 1)
        } else {
            u64::MAX as int
        },
{
    if attempt < u64::MAX / 200 {
        200 * (attempt + 1)
    } else {
        u64::MAX
    }
}

/// Retry policy of the REST families: retry transport-layer failures
/// while attempts remain; never retry status or parse errors.
pub fn should_retry(attempt: usize, retry_limit: usize, transport_error: bool) -> (r: bool)
    ensures
        r == (transport_error && attempt < retry_limit),
{
    transport_error && attempt < retry_limit
}

/// The default SSH command timeout, in seconds.
pub const DEFAULT_SSH_TIMEOUT_SECS: u64 = 30;

/// The default HTTP timeout, in seconds.
pub const DEFAULT_HTTP_TIMEOUT_SECS: u64 = 15;

/// The default REST retry count.
pub const DEFAULT_HTTP_RETRIES: usize = 2;

/// The SSH command timeout: the environment's positive override, read by
/// the caller, or the default of thirty seconds.
pub fn ssh_command_timeout(override_secs: Option<u64>) -> (r: u64)
    ensures
        r == match override_secs {
            Some(v) => v as int,
            None => DEFAULT_SSH_TIMEOUT_SECS as int,
        },
{
    match override_secs {
        Some(v) => v,
        None => DEFAULT_SSH_TIMEOUT_SECS,
    }
}

/// The HTTP timeout: the environment's override, read by the caller, or
/// the default of fifteen seconds.
pub fn http_timeout(override_secs: Option<u64>) -> (r: u64)
    ensures
        r == match override_secs {
            Some(v) => v as int,
            None => DEFAULT_HTTP_TIMEOUT_SECS as int,
        },
{
    match override_secs {
        Some(v) => v,
        None => DEFAULT_HTTP_TIMEOUT_SECS,
    }
}

/// The REST retry limit: the environment's positive override, read by
/// the caller, or the default of two.
pub fn http_retry_limit(override_retries: Option<usize>) -> (r: usize)
    ensures
        r == match override_retries {
            Some(v) => if v > 0 {
                v as int
            } else {
                DEFAULT_HTTP_RETRIES as int
            },
            None => DEFAULT_HTTP_RETRIES as int,
        },
{
    match override_retries {
        Some(v) => if v > 0 {
            v
        } else {
            DEFAULT_HTTP_RETRIES
        },
        None => DEFAULT_HTTP_RETRIES,
    }
}

} // verus!
