//! The terminal bridge between a browser and ttyd: how messages are framed
//! each way and how the connection is opened.
//!
//! ttyd prefixes every message with a command byte. From the client: `0`
//! input, `1` resize (JSON), `2` pause, `3` resume. From the server: `0`
//! output, `1` window title, `2` preferences. The browser side speaks raw
//! terminal data, so the bridge adds prefixes on the way in and strips or
//! drops them on the way out.

use vstd::prelude::*;
use crate::text::{chars_of, contains_chars, contains_seq, decimal, decimal_string, lit};

verus! {

broadcast use vstd::string::group_string_axioms;

/// The ttyd input command byte (`'0'`).
pub open spec fn input_byte() -> u8 {
    48
}

/// The ttyd resize command byte (`'1'`).
pub open spec fn resize_byte() -> u8 {
    49
}

/// A text message from the browser that asks for a resize: JSON naming
/// `columns`.
pub open spec fn is_resize_text(t: Seq<char>) -> bool {
    t.len() > 0 && t[0] == '{' && contains_seq(t, "columns"@)
}

/// The ttyd message for a text message from the browser: a resize command
/// for resize JSON, otherwise input, followed by the text's UTF-8 bytes.
pub open spec fn client_text_frame(t: Seq<char>) -> Seq<u8> {
    seq![if is_resize_text(t) { resize_byte() } else { input_byte() }] + vstd::utf8::encode_utf8(t)
}

/// A byte that already is a ttyd client command (`'0'` to `'3'`).
pub open spec fn is_client_command(b: u8) -> bool {
    48 <= b <= 51
}

/// The ttyd message for binary data from the browser: passed through when
/// it already starts with a command byte, otherwise sent as input.
pub open spec fn client_binary_frame(d: Seq<u8>) -> Seq<u8> {
    if d.len() > 0 && is_client_command(d[0]) {
        d
    } else {
        seq![input_byte()] + d
    }
}

fn bytes_after(prefix: u8, data: &[u8]) -> (r: Vec<u8>)
    ensures
        r@ == seq![prefix] + data@,
{
    let mut r: Vec<u8> = Vec::new();
    r.push(prefix);
    let mut i: usize = 0;
    while i < data.len()
        invariant
            i <= data@.len(),
            r@ == seq![prefix] + data@.subrange(0, i as int),
        decreases data.len() - i,
    {
        r.push(data[i]);
        i = i + 1;
        assert(r@ =~= seq![prefix] + data@.subrange(0, i as int));
    }
    assert(data@.subrange(0, i as int) =~= data@);
    r
}

/// Frames a text message from the browser for ttyd.
pub fn frame_client_text(text: &str) -> (r: Vec<u8>)
    ensures
        r@ == client_text_frame(text@),
{
    let v = chars_of(text);
    let word = chars_of("columns");
    let resize = v.len() > 0 && v[0] == '{' && contains_chars(&v, &word);
    let prefix: u8 = if resize { 49 } else { 48 };
    bytes_after(prefix, text.as_bytes())
}

/// Frames binary data from the browser for ttyd.
pub fn frame_client_binary(data: &Vec<u8>) -> (r: Vec<u8>)
    ensures
        r@ == client_binary_frame(data@),
{
    if data.len() > 0 && 48 <= data[0] && data[0] <= 51 {
        let mut r: Vec<u8> = Vec::new();
        let mut i: usize = 0;
        while i < data.len()
            invariant
                i <= data@.len(),
                r@ == data@.subrange(0, i as int),
            decreases data.len() - i,
        {
            r.push(data[i]);
            i = i + 1;
            assert(r@ =~= data@.subrange(0, i as int));
        }
        assert(data@.subrange(0, i as int) =~= data@);
        r
    } else {
        bytes_after(48, data.as_slice())
    }
}

/// What the browser is sent for a text message from ttyd: the output
/// without its `0` prefix; nothing for a window title (`1`), preferences
/// (`2`) or an empty message; anything else as it came.
pub open spec fn server_text_relay(t: Seq<char>) -> Option<Seq<char>> {
    if t.len() == 0 {
        None
    } else if t[0] == '0' {
        Some(t.drop_first())
    } else if t[0] == '1' || t[0] == '2' {
        None
    } else {
        Some(t)
    }
}

/// What the browser is sent for binary data from ttyd (the same rules as
/// for text, on bytes).
pub open spec fn server_binary_relay(d: Seq<u8>) -> Option<Seq<u8>> {
    if d.len() == 0 {
        None
    } else if d[0] == 48 {
        Some(d.drop_first())
    } else if d[0] == 49 || d[0] == 50 {
        None
    } else {
        Some(d)
    }
}

/// The text, if any, to relay to the browser for a text message from ttyd.
pub fn relay_server_text(text: &str) -> (r: Option<String>)
    ensures
        match server_text_relay(text@) {
            Some(t) => r matches Some(s) && s@ == t,
            None => r is None,
        },
{
    let v = chars_of(text);
    if v.len() == 0 {
        return None;
    }
    let c = v[0];
    if c == '0' {
        let mut s = String::new();
        let mut i: usize = 1;
        while i < v.len()
            invariant
                1 <= i <= v@.len(),
                s@ == v@.subrange(1, i as int),
            decreases v.len() - i,
        {
            crate::text::push_char(&mut s, v[i]);
            i = i + 1;
            assert(s@ =~= v@.subrange(1, i as int));
        }
        assert(v@.subrange(1, i as int) =~= v@.drop_first());
        Some(s)
    } else if c == '1' || c == '2' {
        None
    } else {
        Some(lit(text))
    }
}

/// The bytes, if any, to relay to the browser for binary data from ttyd.
pub fn relay_server_binary(data: &Vec<u8>) -> (r: Option<Vec<u8>>)
    ensures
        match server_binary_relay(data@) {
            Some(d) => r matches Some(v) && v@ == d,
            None => r is None,
        },
{
    if data.len() == 0 {
        return None;
    }
    let b = data[0];
    if b == 49 || b == 50 {
        return None;
    }
    let start: usize = if b == 48 { 1 } else { 0 };
    let mut r: Vec<u8> = Vec::new();
    let mut i: usize = start;
    while i < data.len()
        invariant
            start <= i <= data@.len(),
            r@ == data@.subrange(start as int, i as int),
        decreases data.len() - i,
    {
        r.push(data[i]);
        i = i + 1;
        assert(r@ =~= data@.subrange(start as int, i as int));
    }
    assert(data@.subrange(start as int, i as int) =~= (if b == 48 {
        data@.drop_first()
    } else {
        data@
    }));
    Some(r)
}

/// The first message sent to ttyd after connecting: an empty token and a
/// 120 by 40 terminal.
pub fn ttyd_init_message() -> (r: String)
    ensures
        r@ == "{\"AuthToken\":\"\",\"columns\":120,\"rows\":40}"@,
{
    lit("{\"AuthToken\":\"\",\"columns\":120,\"rows\":40}")
}

/// The WebSocket address of the ttyd listening on `port`.
pub fn ttyd_url(port: u16) -> (r: String)
    ensures
        r@ == "ws://localhost:"@ + decimal(port as nat) + "/ws"@,
{
    let mut r = lit("ws://localhost:");
    let d = decimal_string(port as u64);
    r.append(d.as_str());
    r.append("/ws");
    r
}

/// The subprotocol ttyd expects.
pub fn ttyd_subprotocol() -> (r: String)
    ensures
        r@ == "tty"@,
{
    lit("tty")
}

/// Every message the bridge sends to ttyd starts with a client command
/// byte, and the browser's data follows it unchanged (text as its UTF-8
/// bytes).
pub proof fn law_client_frames(t: Seq<char>, d: Seq<u8>)
    ensures
        client_text_frame(t).len() > 0 && is_client_command(client_text_frame(t)[0]),
        client_text_frame(t).drop_first() == vstd::utf8::encode_utf8(t),
        client_binary_frame(d).len() > 0 && is_client_command(client_binary_frame(d)[0]),
        d.len() > 0 && is_client_command(d[0]) ==> client_binary_frame(d) == d,
        !(d.len() > 0 && is_client_command(d[0])) ==> client_binary_frame(d).drop_first() == d,
{
    assert(client_text_frame(t).drop_first() =~= vstd::utf8::encode_utf8(t));
    if !(d.len() > 0 && is_client_command(d[0])) {
        assert(client_binary_frame(d).drop_first() =~= d);
    }
}

/// Terminal output framed by ttyd reaches the browser without its prefix:
/// relaying `0` followed by some output gives back that output.
pub proof fn law_output_relay(out: Seq<char>, data: Seq<u8>)
    ensures
        server_text_relay(seq!['0'] + out) == Some(out),
        server_binary_relay(seq![48u8] + data) == Some(data),
{
    assert((seq!['0'] + out).drop_first() =~= out);
    assert((seq![48u8] + data).drop_first() =~= data);
}

} // verus!
