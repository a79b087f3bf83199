//! Image analysis by a local vision model, requested through the outbox.

use vstd::prelude::*;
use crate::outbox::{enqueue_command, queued, EffectOutbox, EffectRequest, EffectType};
use crate::mobile_agent::shell_escaped;
use crate::text::push_str;

verus! {

/// The character of a 6-bit value in the standard base64 alphabet.
pub open spec fn base64_char(v: nat) -> char {
    if v < 26 {
        (65 + v) as char
    } else if v < 52 {
        (97 + v - 26) as char
    } else if v < 62 {
        (48 + v - 52) as char
    } else if v == 62 {
        '+'
    } else {
        '/'
    }
}

/// Standard base64 with padding: every three bytes become four characters; a last group of
/// one or two bytes is padded with `=`.
pub open spec fn base64_standard(d: Seq<u8>) -> Seq<char>
    decreases d.len(),
{
    if d.len() == 0 {
        Seq::empty()
    } else if d.len() == 1 {
        seq![base64_char(d[0] as nat / 4), base64_char((d[0] as nat % 4) * 16), '=', '=']
    } else if d.len() == 2 {
        seq![
            base64_char(d[0] as nat / 4),
            base64_char((d[0] as nat % 4) * 16 + d[1] as nat / 16),
            base64_char((d[1] as nat % 16) * 4),
            '=',
        ]
    } else {
        seq![
            base64_char(d[0] as nat / 4),
            base64_char((d[0] as nat % 4) * 16 + d[1] as nat / 16),
            base64_char((d[1] as nat % 16) * 4 + d[2] as nat / 64),
            base64_char(d[2] as nat % 64),
        ] + base64_standard(d.skip(3))
    }
}

/// Encodes bytes in standard base64 with padding
/// (`base64::engine::general_purpose::STANDARD.encode`).
#[verifier::external_body]
fn encode_base64(data: &[u8]) -> (r: String)
    ensures
        r@ == base64_standard(data@),
{
    base64::Engine::encode(&base64::engine::general_purpose::STANDARD, data)
}

/// A lowercase hexadecimal digit.
pub open spec fn hex_digit(v: nat) -> char {
    if v < 10 { (48 + v) as char } else { (87 + v) as char }
}

/// How `serde_json` writes one character inside a string: quote, backslash and the control
/// characters escaped (the usual short escapes where JSON has one, else `\u00XX`), every other
/// character as it is.
pub open spec fn json_char(c: char) -> Seq<char> {
    if c == '"' {
        seq!['\\', '"']
    } else if c == '\\' {
        seq!['\\', '\\']
    } else if c == '\u{8}' {
        seq!['\\', 'b']
    } else if c == '\t' {
        seq!['\\', 't']
    } else if c == '\n' {
        seq!['\\', 'n']
    } else if c == '\u{c}' {
        seq!['\\', 'f']
    } else if c == '\r' {
        seq!['\\', 'r']
    } else if (c as nat) < 32 {
        seq!['\\', 'u', '0', '0', hex_digit((c as nat) / 16), hex_digit((c as nat) % 16)]
    } else {
        seq![c]
    }
}

/// The characters of a string as `serde_json` writes them, one after another.
pub open spec fn json_escaped(s: Seq<char>) -> Seq<char>
    decreases s.len(),
{
    if s.len() == 0 {
        Seq::empty()
    } else {
        json_escaped(s.drop_last()) + json_char(s.last())
    }
}

/// The JSON text of a string: the escaped characters between double quotes.
pub open spec fn json_string_text(s: Seq<char>) -> Seq<char> {
    seq!['"'] + json_escaped(s) + seq!['"']
}

/// Writes a string as JSON (`serde_json::to_string` of a `&str`, which cannot fail): quoted, with
/// the escapes of its `ESCAPE` table.
#[verifier::external_body]
fn json_quote(s: &str) -> (r: String)
    ensures
        r@ == json_string_text(s@),
{
    serde_json::to_string(s).unwrap()
}

/// The request body for the vision model: the keys in the order in which `serde_json` writes
/// them (sorted), the image in base64.
pub open spec fn vision_request(image: Seq<u8>, prompt: Seq<char>) -> Seq<char> {
    "{\"images\":["@ + json_string_text(base64_standard(image)) + "],\"model\":\"moondream:latest\",\"prompt\":"@
        + json_string_text(prompt) + ",\"stream\":false}"@
}

/// The command that posts the request to the local model server.
pub open spec fn vision_command(image: Seq<u8>, prompt: Seq<char>) -> Seq<char> {
    "curl -s -X POST http://127.0.0.1:11434/api/generate -H 'Content-Type: application/json' -d '"@
        + shell_escaped(vision_request(image, prompt)) + "'"@
}

/// The effect queued when the image cannot be read.
pub open spec fn image_not_found(e: EffectRequest) -> bool {
    e.id == 0 && e.tick == 0 && e.effect_type == EffectType::Subprocess && e.payload@ == "echo 'Image not found'"@
}

pub struct VisionAgent;

impl VisionAgent {
    /// Queues the analysis of an image (its bytes, or `None` when it could not be read) with
    /// `prompt`. An unreadable image queues, under id 0, a command that reports it.
    pub fn analyze_image(image: Option<Vec<u8>>, prompt: &str, outbox: &mut EffectOutbox)
        ensures
            match image {
                None => exists|e: EffectRequest| image_not_found(e) && #[trigger] final(outbox)@ == old(outbox)@.insert(0, e),
                Some(data) => queued(old(outbox)@, final(outbox)@, vision_command(data@, prompt@)),
            },
    {
        match image {
            None => {
                let mut payload = String::new();
                push_str(&mut payload, "echo 'Image not found'");
                let e = EffectRequest { id: 0, tick: 0, effect_type: EffectType::Subprocess, payload };
                assert(image_not_found(e));
                outbox.enqueue(e);
            },
            Some(data) => {
                let b64 = encode_base64(data.as_slice());
                let mut json = String::new();
                push_str(&mut json, "{\"images\":[");
                push_str(&mut json, json_quote(b64.as_str()).as_str());
                push_str(&mut json, "],\"model\":\"moondream:latest\",\"prompt\":");
                push_str(&mut json, json_quote(prompt).as_str());
                push_str(&mut json, ",\"stream\":false}");
                assert(json@ =~= vision_request(data@, prompt@));
                let mut cmd = String::new();
                push_str(&mut cmd, "curl -s -X POST http://127.0.0.1:11434/api/generate -H 'Content-Type: application/json' -d '");
                crate::mobile_agent::push_shell_escaped(&mut cmd, json.as_str());
                push_str(&mut cmd, "'");
                assert(cmd@ =~= vision_command(data@, prompt@));
                enqueue_command(outbox, cmd);
            },
        }
    }
}

} // verus!
