//! The wire codec: one JSON-shaped message per frame. The exact text of
//! every outbound `StateUpdate` and of every command message is given by
//! spec functions over character sequences; the encoder is verified to
//! produce exactly that text, and the command parser accepts exactly the
//! canonical command messages.

use vstd::prelude::*;

use crate::model::Message;
use crate::model::PlayerCommand;
use crate::model::StateModel;

verus! {

/// Digit character for a value below ten.
pub open spec fn digit_char(d: int) -> char {
    ((0x30 + d) as u8) as char
}

/// Lowercase hexadecimal digit character for a value below sixteen.
pub open spec fn hex_char(d: int) -> char {
    if d < 10 {
        ((0x30 + d) as u8) as char
    } else {
        ((0x61 + (d - 10)) as u8) as char
    }
}

/// Decimal numeral of `n`, most significant digit first, no leading zero.
pub open spec fn dec_digits(n: nat) -> Seq<char>
    decreases n,
{
    if n < 10 {
        seq![digit_char(n as int)]
    } else {
        dec_digits(n / 10) + seq![digit_char((n % 10) as int)]
    }
}

/// How one character appears inside a JSON string literal: quote and
/// backslash are escaped, the common control characters get their short
/// escapes, any other control character a `\u00..` escape, and everything
/// else stands for itself.
pub open spec fn escape_char(c: char) -> Seq<char> {
    if c == '"' {
        seq!['\\', '"']
    } else if c == '\\' {
        seq!['\\', '\\']
    } else if c == '\u{8}' {
        seq!['\\', 'b']
    } else if c == '\t' {
        seq!['\\', 't']
    } else if c == '\n' {
        seq!['\\', 'n']
    } else if c == '\u{c}' {
        seq!['\\', 'f']
    } else if c == '\r' {
        seq!['\\', 'r']
    } else if (c as u32) < 0x20 {
        seq!['\\', 'u', '0', '0', hex_char((c as u32) as int / 16), hex_char((c as u32) as int % 16)]
    } else {
        seq![c]
    }
}

/// A whole string escaped, character by character.
pub open spec fn escape_str(s: Seq<char>) -> Seq<char>
    decreases s.len(),
{
    if s.len() == 0 {
        Seq::empty()
    } else {
        escape_str(s.drop_last()) + escape_char(s.last())
    }
}

/// A JSON string literal: the escaped text between double quotes.
pub open spec fn quoted(s: Seq<char>) -> Seq<char> {
    seq!['"'] + escape_str(s) + seq!['"']
}

/// A JSON boolean literal.
pub open spec fn bool_lit(b: bool) -> Seq<char> {
    if b {
        "true"@
    } else {
        "false"@
    }
}

/// The exact text of a `StateUpdate` message for snapshot `st`.
pub open spec fn spec_state_update(st: StateModel) -> Seq<char> {
    "{\"StateUpdate\":{\"song_title\":"@ + quoted(st.song_title) + ",\"artist\":"@ + quoted(
        st.artist,
    ) + ",\"is_playing\":"@ + bool_lit(st.is_playing) + ",\"progress_ms\":"@ + dec_digits(
        st.progress_ms as nat,
    ) + ",\"duration_ms\":"@ + dec_digits(st.duration_ms as nat) + ",\"current_index\":"@
        + dec_digits(st.current_index as nat) + ",\"total_songs\":"@ + dec_digits(
        st.total_songs as nat,
    ) + "}}"@
}

/// The exact text of a command message.
pub open spec fn spec_command_msg(c: PlayerCommand) -> Seq<char> {
    match c {
        PlayerCommand::Play => "{\"Command\":\"Play\"}"@,
        PlayerCommand::Pause => "{\"Command\":\"Pause\"}"@,
        PlayerCommand::Next => "{\"Command\":\"Next\"}"@,
        PlayerCommand::Prev => "{\"Command\":\"Prev\"}"@,
        PlayerCommand::Restart => "{\"Command\":\"Restart\"}"@,
        PlayerCommand::Seek(ms) => "{\"Command\":{\"Seek\":"@ + dec_digits(ms as nat) + "}}"@,
    }
}

/// The exact text of any message.
pub open spec fn spec_message(m: Message) -> Seq<char> {
    match m {
        Message::StateUpdate(s) => spec_state_update(s@),
        Message::Command(c) => spec_command_msg(c),
    }
}

/// Whether `c` is a decimal digit character.
pub open spec fn is_digit(c: char) -> bool {
    0x30 <= c as u32 <= 0x39
}

/// Numeric value of a decimal digit character.
pub open spec fn digit_val(c: char) -> nat {
    (c as u32 - 0x30) as nat
}

/// Whether every character of `s` is a decimal digit.
pub open spec fn all_digits(s: Seq<char>) -> bool {
    forall|i: int| 0 <= i < s.len() ==> is_digit(#[trigger] s[i])
}

/// Value of a digit string, most significant digit first.
pub open spec fn digits_val(s: Seq<char>) -> nat
    decreases s.len(),
{
    if s.len() == 0 {
        0
    } else {
        digits_val(s.drop_last()) * 10 + digit_val(s.last())
    }
}

/// A canonical numeral: non-empty, digits only, and no leading zero.
pub open spec fn canonical_digits(s: Seq<char>) -> bool {
    &&& s.len() >= 1
    &&& all_digits(s)
    &&& s.len() > 1 ==> s[0] != '0'
}

/// The text that opens a `Seek` command message.
pub open spec fn seek_prefix() -> Seq<char> {
    "{\"Command\":{\"Seek\":"@
}

/// The numeral part of a candidate `Seek` message: what stands between the
/// opening text and the closing braces.
pub open spec fn seek_mid(s: Seq<char>) -> Seq<char> {
    s.subrange(seek_prefix().len() as int, s.len() - 2)
}

/// The command grammar: which lines are command messages, and which command
/// each one carries. A line is accepted exactly when it is the canonical
/// text of one command; anything else parses to `None`.
pub open spec fn spec_parse_command(s: Seq<char>) -> Option<PlayerCommand> {
    if s == spec_command_msg(PlayerCommand::Play) {
        Some(PlayerCommand::Play)
    } else if s == spec_command_msg(PlayerCommand::Pause) {
        Some(PlayerCommand::Pause)
    } else if s == spec_command_msg(PlayerCommand::Next) {
        Some(PlayerCommand::Next)
    } else if s == spec_command_msg(PlayerCommand::Prev) {
        Some(PlayerCommand::Prev)
    } else if s == spec_command_msg(PlayerCommand::Restart) {
        Some(PlayerCommand::Restart)
    } else if s.len() >= seek_prefix().len() + 3 && s.subrange(0, seek_prefix().len() as int)
        == seek_prefix() && s.subrange(s.len() - 2, s.len() as int) == "}}"@ && canonical_digits(
        seek_mid(s),
    ) && digits_val(seek_mid(s)) <= u64::MAX {
        Some(PlayerCommand::Seek(digits_val(seek_mid(s)) as u64))
    } else {
        None
    }
}

/// A digit string is worth at least any of its prefixes.
proof fn lemma_digits_val_monotone(s: Seq<char>, j: int)
    requires
        0 <= j <= s.len(),
    ensures
        digits_val(s.take(j)) <= digits_val(s),
    decreases s.len() - j,
{
    if j == s.len() {
        assert(s.take(j) =~= s);
    } else {
        assert(s.take(j + 1).drop_last() =~= s.take(j));
        let a = digits_val(s.take(j));
        let d = digit_val(s[j]);
        assert(a <= a * 10 + d) by (nonlinear_arith);
        lemma_digits_val_monotone(s, j + 1);
    }
}

/// Every numeral the encoder writes is canonical: non-empty, digits only,
/// exactly one digit for values below ten, and no leading zero.
proof fn lemma_dec_digits_props(n: nat)
    ensures
        dec_digits(n).len() >= 1,
        all_digits(dec_digits(n)),
        (n < 10) <==> (dec_digits(n).len() == 1),
        n >= 1 ==> dec_digits(n)[0] != '0',
    decreases n,
{
    if n < 10 {
        assert(digit_char(n as int) as u32 == 0x30 + n);
        assert(is_digit(dec_digits(n)[0]));
        if n >= 1 {
            assert(dec_digits(n)[0] as u32 != 0x30);
        }
    } else {
        lemma_dec_digits_props(n / 10);
        assert(digit_char((n % 10) as int) as u32 == 0x30 + (n % 10));
        assert(forall|i: int|
            0 <= i < dec_digits(n).len() ==> is_digit(#[trigger] dec_digits(n)[i]));
        assert(dec_digits(n)[0] == dec_digits(n / 10)[0]);
    }
}

/// The value of the numeral of `n` is `n` itself.
proof fn lemma_digits_val_dec(n: nat)
    ensures
        digits_val(dec_digits(n)) == n,
    decreases n,
{
    if n < 10 {
        assert(dec_digits(n).drop_last() =~= Seq::<char>::empty());
        assert(digits_val(dec_digits(n).drop_last()) == 0);
        assert(digit_char(n as int) as u32 == 0x30 + n);
        assert(dec_digits(n).last() == digit_char(n as int));
        assert(digit_val(dec_digits(n).last()) == n);
    } else {
        lemma_digits_val_dec(n / 10);
        assert(dec_digits(n).drop_last() =~= dec_digits(n / 10));
        assert(digit_char((n % 10) as int) as u32 == 0x30 + (n % 10));
        assert(digit_val(dec_digits(n).last()) == n % 10);
        vstd::arithmetic::div_mod::lemma_fundamental_div_mod(n as int, 10);
    }
}

/// A canonical numeral with a non-zero first digit is worth at least one.
proof fn lemma_digits_val_positive(s: Seq<char>)
    requires
        s.len() >= 1,
        all_digits(s),
        s[0] != '0',
    ensures
        digits_val(s) >= 1,
{
    assert(s.take(1).drop_last() =~= Seq::<char>::empty());
    assert(digits_val(s.take(1).drop_last()) == 0);
    assert(s.take(1).last() == s[0]);
    assert(digits_val(s.take(1)) == digit_val(s[0]));
    assert('0' as u32 == 0x30);
    if s[0] as u32 == 0x30 {
        vstd::utf8::char_u32_cast(s[0], 0x30);
        vstd::utf8::char_u32_cast('0', 0x30);
        assert(s[0] == '0');
    }
    assert(digit_val(s[0]) >= 1);
    lemma_digits_val_monotone(s, 1);
}

/// Canonical numerals are unique: a canonical digit string worth `n` is the
/// numeral of `n`.
proof fn lemma_canonical_unique(s: Seq<char>, n: nat)
    requires
        canonical_digits(s),
        digits_val(s) == n,
    ensures
        s == dec_digits(n),
    decreases s.len(),
{
    if s.len() == 1 {
        assert(s.drop_last() =~= Seq::<char>::empty());
        assert(digits_val(s.drop_last()) == 0);
        assert(s.last() == s[0]);
        assert(n == digit_val(s[0]));
        assert(digit_char(n as int) as u32 == 0x30 + n);
        assert(digit_char(n as int) as u32 == s[0] as u32);
        vstd::utf8::char_u32_cast(digit_char(n as int), (0x30 + n) as u32);
        vstd::utf8::char_u32_cast(s[0], (0x30 + n) as u32);
        assert(digit_char(n as int) == s[0]);
        assert(s =~= dec_digits(n));
    } else {
        let a = s.drop_last();
        let d = digit_val(s.last());
        assert(a[0] == s[0]);
        assert(forall|i: int| 0 <= i < a.len() ==> is_digit(#[trigger] a[i]));
        lemma_digits_val_positive(a);
        let m = digits_val(a);
        assert(n == m * 10 + d);
        assert(n >= 10) by (nonlinear_arith)
            requires
                n == m * 10 + d,
                m >= 1,
                d >= 0,
        ;
        vstd::arithmetic::div_mod::lemma_fundamental_div_mod_converse(
            n as int,
            10,
            m as int,
            d as int,
        );
        lemma_canonical_unique(a, m);
        assert(digit_char((n % 10) as int) as u32 == 0x30 + (n % 10));
        assert(digit_char((n % 10) as int) as u32 == s.last() as u32);
        vstd::utf8::char_u32_cast(digit_char((n % 10) as int), (0x30 + (n % 10)) as u32);
        vstd::utf8::char_u32_cast(s.last(), (0x30 + (n % 10)) as u32);
        assert(digit_char((n % 10) as int) == s.last());
        assert(s =~= a + seq![s.last()]);
        assert(s =~= dec_digits(n));
    }
}

/// Law (parser soundness): an accepted line is exactly the canonical text
/// of the command returned — the parser accepts nothing else.
pub proof fn lemma_parse_sound(s: Seq<char>, c: PlayerCommand)
    requires
        spec_parse_command(s) == Some(c),
    ensures
        s == spec_command_msg(c),
{
    if s == spec_command_msg(PlayerCommand::Play) || s == spec_command_msg(PlayerCommand::Pause)
        || s == spec_command_msg(PlayerCommand::Next) || s == spec_command_msg(
        PlayerCommand::Prev,
    ) || s == spec_command_msg(PlayerCommand::Restart) {
    } else {
        let pl = seek_prefix().len() as int;
        let mid = seek_mid(s);
        let v = digits_val(mid) as u64;
        lemma_canonical_unique(mid, v as nat);
        assert(s =~= s.subrange(0, pl) + mid + s.subrange(s.len() - 2, s.len() as int));
        assert(s =~= spec_command_msg(PlayerCommand::Seek(v)));
    }
}

/// Law (round trip): the canonical text of every command parses back to
/// exactly that command.
pub proof fn lemma_parse_encode(c: PlayerCommand)
    ensures
        spec_parse_command(spec_command_msg(c)) == Some(c),
{
    reveal_strlit("{\"Command\":\"Play\"}");
    reveal_strlit("{\"Command\":\"Pause\"}");
    reveal_strlit("{\"Command\":\"Next\"}");
    reveal_strlit("{\"Command\":\"Prev\"}");
    reveal_strlit("{\"Command\":\"Restart\"}");
    reveal_strlit("{\"Command\":{\"Seek\":");
    reveal_strlit("}}");
    match c {
        PlayerCommand::Play => {
        },
        PlayerCommand::Pause => {
            assert(spec_command_msg(PlayerCommand::Pause).len() != spec_command_msg(
                PlayerCommand::Play,
            ).len());
        },
        PlayerCommand::Next => {
            assert(spec_command_msg(PlayerCommand::Next)[12] != spec_command_msg(
                PlayerCommand::Play,
            )[12]);
            assert(spec_command_msg(PlayerCommand::Next).len() != spec_command_msg(
                PlayerCommand::Pause,
            ).len());
        },
        PlayerCommand::Prev => {
            assert(spec_command_msg(PlayerCommand::Prev)[13] != spec_command_msg(
                PlayerCommand::Play,
            )[13]);
            assert(spec_command_msg(PlayerCommand::Prev).len() != spec_command_msg(
                PlayerCommand::Pause,
            ).len());
            assert(spec_command_msg(PlayerCommand::Prev)[12] != spec_command_msg(
                PlayerCommand::Next,
            )[12]);
        },
        PlayerCommand::Restart => {
            assert(spec_command_msg(PlayerCommand::Restart).len() != spec_command_msg(
                PlayerCommand::Play,
            ).len());
            assert(spec_command_msg(PlayerCommand::Restart).len() != spec_command_msg(
                PlayerCommand::Pause,
            ).len());
            assert(spec_command_msg(PlayerCommand::Restart).len() != spec_command_msg(
                PlayerCommand::Next,
            ).len());
            assert(spec_command_msg(PlayerCommand::Restart).len() != spec_command_msg(
                PlayerCommand::Prev,
            ).len());
        },
        PlayerCommand::Seek(ms) => {
            let s = spec_command_msg(c);
            let pl = seek_prefix().len() as int;
            lemma_dec_digits_props(ms as nat);
            lemma_digits_val_dec(ms as nat);
            let dl = dec_digits(ms as nat).len() as int;
            assert(s.len() == pl + dl + 2);
            assert(s.len() >= pl + 3);
            assert(s.len() > spec_command_msg(PlayerCommand::Play).len());
            assert(s.len() > spec_command_msg(PlayerCommand::Pause).len());
            assert(s.len() > spec_command_msg(PlayerCommand::Next).len());
            assert(s.len() > spec_command_msg(PlayerCommand::Prev).len());
            assert(s.len() > spec_command_msg(PlayerCommand::Restart).len());
            assert(s.subrange(0, pl) =~= seek_prefix());
            assert(s.subrange(s.len() - 2, s.len() as int) =~= "}}"@);
            assert(seek_mid(s) =~= dec_digits(ms as nat));
            if dec_digits(ms as nat).len() > 1 {
                assert(ms >= 1);
            }
            assert(canonical_digits(seek_mid(s)));
            assert(digits_val(seek_mid(s)) == ms as nat);
        },
    }
}

/// Character-wise string equality.
pub(crate) fn str_eq(a: &str, b: &str) -> (r: bool)
    ensures
        r == (a@ == b@),
{
    let na = a.unicode_len();
    let nb = b.unicode_len();
    if na != nb {
        return false;
    }
    let mut i: usize = 0;
    while i < na
        invariant
            na == a@.len(),
            nb == b@.len(),
            na == nb,
            i <= na,
            forall|j: int| 0 <= j < i ==> a@[j] == b@[j],
        decreases na - i,
    {
        if a.get_char(i) != b.get_char(i) {
            return false;
        }
        i = i + 1;
    }
    proof {
        assert(a@ =~= b@);
    }
    true
}

/// Parses one inbound line against the command grammar: returns the command
/// whose canonical message the line is, or `None` for anything else (such a
/// line is to be ignored by the caller).
#[verifier::loop_isolation(false)]
pub fn parse_command(line: &str) -> (r: Option<PlayerCommand>)
    ensures
        r == spec_parse_command(line@),
{
    if str_eq(line, "{\"Command\":\"Play\"}") {
        return Some(PlayerCommand::Play);
    }
    if str_eq(line, "{\"Command\":\"Pause\"}") {
        return Some(PlayerCommand::Pause);
    }
    if str_eq(line, "{\"Command\":\"Next\"}") {
        return Some(PlayerCommand::Next);
    }
    if str_eq(line, "{\"Command\":\"Prev\"}") {
        return Some(PlayerCommand::Prev);
    }
    if str_eq(line, "{\"Command\":\"Restart\"}") {
        return Some(PlayerCommand::Restart);
    }
    let pfx = "{\"Command\":{\"Seek\":";
    let pn = pfx.unicode_len();
    let n = line.unicode_len();
    proof {
        reveal_strlit("{\"Command\":{\"Seek\":");
    }
    if n < pn + 3 {
        return None;
    }
    let mut i: usize = 0;
    while i < pn
        invariant
            i <= pn,
            forall|j: int| 0 <= j < i ==> line@[j] == seek_prefix()[j],
        decreases pn - i,
    {
        if line.get_char(i) != pfx.get_char(i) {
            proof {
                assert(line@.subrange(0, pn as int)[i as int] == line@[i as int]);
            }
            return None;
        }
        i = i + 1;
    }
    proof {
        assert(line@.subrange(0, pn as int) =~= seek_prefix());
    }
    if line.get_char(n - 2) != '}' || line.get_char(n - 1) != '}' {
        proof {
            reveal_strlit("}}");
            assert(line@.subrange(n - 2, n as int)[0] == line@[n - 2]);
            assert(line@.subrange(n - 2, n as int)[1] == line@[n - 1]);
        }
        return None;
    }
    proof {
        reveal_strlit("}}");
        assert(line@.subrange(n - 2, n as int) =~= "}}"@);
    }
    let ghost mid = seek_mid(line@);
    if n - pn - 2 > 1 && line.get_char(pn) == '0' {
        proof {
            assert(mid[0] == line@[pn as int]);
        }
        return None;
    }
    let mut value: u64 = 0;
    let mut j: usize = pn;
    while j < n - 2
        invariant
            pn <= j <= n - 2,
            value == digits_val(mid.take(j - pn)),
            forall|k: int| 0 <= k < j - pn ==> is_digit(#[trigger] mid[k]),
        decreases n - 2 - j,
    {
        let c = line.get_char(j);
        let v = c as u32;
        proof {
            assert(mid[j - pn] == line@[j as int]);
        }
        if v < 0x30 || v > 0x39 {
            return None;
        }
        let d = (v - 0x30) as u64;
        proof {
            assert(mid.take(j - pn + 1).drop_last() =~= mid.take(j as int - pn));
            assert(mid.take(j - pn + 1).last() == mid[j - pn]);
        }
        let m10 = value.checked_mul(10);
        if m10.is_none() {
            proof {
                lemma_digits_val_monotone(mid, j - pn + 1);
            }
            return None;
        }
        let acc = m10.unwrap().checked_add(d);
        if acc.is_none() {
            proof {
                lemma_digits_val_monotone(mid, j - pn + 1);
            }
            return None;
        }
        value = acc.unwrap();
        j = j + 1;
    }
    proof {
        assert(mid.take(n as int - 2 - pn) =~= mid);
    }
    Some(PlayerCommand::Seek(value))
}

/// Relies on `String::push`: appends exactly the one character.
#[verifier::external_body]
fn push_char(out: &mut String, c: char)
    ensures
        final(out)@ == old(out)@ + seq![c],
{
    out.push(c);
}

/// Appends the decimal digit character of `d`.
fn push_digit(out: &mut String, d: u8)
    requires
        d < 10,
    ensures
        final(out)@ == old(out)@ + seq![digit_char(d as int)],
{
    push_char(out, (0x30 + d) as char);
}

/// Appends the lowercase hexadecimal digit character of `d`.
fn push_hex(out: &mut String, d: u8)
    requires
        d < 16,
    ensures
        final(out)@ == old(out)@ + seq![hex_char(d as int)],
{
    if d < 10 {
        push_char(out, (0x30 + d) as char);
    } else {
        push_char(out, (0x61 + (d - 10)) as char);
    }
}

/// Appends the decimal numeral of `x`.
fn push_u64(out: &mut String, x: u64)
    ensures
        final(out)@ == old(out)@ + dec_digits(x as nat),
    decreases x,
{
    if x >= 10 {
        proof {
            assert(x / 10 < x) by (nonlinear_arith)
                requires
                    x >= 10,
            ;
        }
        push_u64(out, x / 10);
        let ghost mid = out@;
        push_digit(out, (x % 10) as u8);
        proof {
            assert(out@ =~= old(out)@ + dec_digits(x as nat));
        }
    } else {
        push_digit(out, x as u8);
    }
}

/// Appends `escape_char(c)`.
fn push_escaped_char(out: &mut String, c: char)
    ensures
        final(out)@ == old(out)@ + escape_char(c),
{
    if c == '"' {
        push_char(out, '\\');
        push_char(out, '"');
    } else if c == '\\' {
        push_char(out, '\\');
        push_char(out, '\\');
    } else if c == '\u{8}' {
        push_char(out, '\\');
        push_char(out, 'b');
    } else if c == '\t' {
        push_char(out, '\\');
        push_char(out, 't');
    } else if c == '\n' {
        push_char(out, '\\');
        push_char(out, 'n');
    } else if c == '\u{c}' {
        push_char(out, '\\');
        push_char(out, 'f');
    } else if c == '\r' {
        push_char(out, '\\');
        push_char(out, 'r');
    } else if (c as u32) < 0x20 {
        let v = c as u32;
        push_char(out, '\\');
        push_char(out, 'u');
        push_char(out, '0');
        push_char(out, '0');
        push_hex(out, (v / 16) as u8);
        push_hex(out, (v % 16) as u8);
    } else {
        push_char(out, c);
    }
    proof {
        assert(out@ =~= old(out)@ + escape_char(c));
    }
}

/// Appends the JSON string literal for `s`.
fn push_quoted(out: &mut String, s: &str)
    ensures
        final(out)@ == old(out)@ + quoted(s@),
{
    push_char(out, '"');
    let n = s.unicode_len();
    let mut i: usize = 0;
    while i < n
        invariant
            n == s@.len(),
            i <= n,
            out@ == old(out)@ + seq!['"'] + escape_str(s@.take(i as int)),
        decreases n - i,
    {
        let c = s.get_char(i);
        push_escaped_char(out, c);
        proof {
            assert(s@.take(i + 1).drop_last() =~= s@.take(i as int));
            assert(s@.take(i + 1).last() == c);
            assert(out@ =~= old(out)@ + seq!['"'] + escape_str(s@.take(i + 1)));
        }
        i = i + 1;
    }
    push_char(out, '"');
    proof {
        assert(s@.take(n as int) =~= s@);
        assert(out@ =~= old(out)@ + quoted(s@));
    }
}

/// Appends the JSON boolean literal for `b`.
fn push_bool(out: &mut String, b: bool)
    ensures
        final(out)@ == old(out)@ + bool_lit(b),
{
    if b {
        out.append("true");
    } else {
        out.append("false");
    }
}

/// Encodes a message as its exact wire text.
pub fn encode_message(m: &Message) -> (r: String)
    ensures
        r@ == spec_message(*m),
{
    let mut out = String::new();
    match m {
        Message::StateUpdate(s) => {
            out.append("{\"StateUpdate\":{\"song_title\":");
            push_quoted(&mut out, s.song_title.as_str());
            out.append(",\"artist\":");
            push_quoted(&mut out, s.artist.as_str());
            out.append(",\"is_playing\":");
            push_bool(&mut out, s.is_playing);
            out.append(",\"progress_ms\":");
            push_u64(&mut out, s.progress_ms);
            out.append(",\"duration_ms\":");
            push_u64(&mut out, s.duration_ms);
            out.append(",\"current_index\":");
            push_u64(&mut out, s.current_index as u64);
            out.append(",\"total_songs\":");
            push_u64(&mut out, s.total_songs as u64);
            out.append("}}");
            proof {
                assert(out@ =~= spec_state_update(s@));
            }
        },
        Message::Command(c) => {
            match c {
                PlayerCommand::Play => {
                    out.append("{\"Command\":\"Play\"}");
                },
                PlayerCommand::Pause => {
                    out.append("{\"Command\":\"Pause\"}");
                },
                PlayerCommand::Next => {
                    out.append("{\"Command\":\"Next\"}");
                },
                PlayerCommand::Prev => {
                    out.append("{\"Command\":\"Prev\"}");
                },
                PlayerCommand::Restart => {
                    out.append("{\"Command\":\"Restart\"}");
                },
                PlayerCommand::Seek(ms) => {
                    out.append("{\"Command\":{\"Seek\":");
                    push_u64(&mut out, *ms);
                    out.append("}}");
                },
            }
            proof {
                assert(out@ =~= spec_command_msg(*c));
            }
        },
    }
    out
}

} // verus!
