//! Finding the shell's working directory: from the OSC 7 report that the
//! shell sends (`file://host/path`, percent-encoded), or from the `n` line
//! of `lsof -Fn` output.
use vstd::prelude::*;
use vstd::utf8::{decode_utf8, encode_scalar, encode_utf8, valid_utf8};

verus! {

/// What `String::from_utf8_lossy` makes of `bytes`: their chars, with each
/// invalid sequence replaced by U+FFFD.
pub uninterp spec fn utf8_lossy(bytes: Seq<u8>) -> Seq<char>;

/// `String::from_utf8_lossy`, made an owned `String`. Its documentation
/// promises that valid UTF-8 comes back unchanged; what it makes of invalid
/// input is left to the name `utf8_lossy`.
#[verifier::external_body]
pub(crate) fn from_utf8_lossy(bytes: &[u8]) -> (s: String)
    ensures
        s@ == utf8_lossy(bytes@),
        valid_utf8(bytes@) ==> s@ == decode_utf8(bytes@),
{
    String::from_utf8_lossy(bytes).into_owned()
}

/// `String::push`: `c` is appended.
#[verifier::external_body]
pub(crate) fn push_char(s: &mut String, c: char)
    ensures
        final(s)@ == old(s)@.push(c),
{
    s.push(c)
}

/// The value of a hexadecimal digit byte.
pub open spec fn hex_value(b: u8) -> Option<u32> {
    if 0x30 <= b <= 0x39 {
        Some((b - 0x30) as u32)
    } else if 0x41 <= b <= 0x46 {
        Some((b - 0x41 + 10) as u32)
    } else if 0x61 <= b <= 0x66 {
        Some((b - 0x61 + 10) as u32)
    } else {
        None
    }
}

/// The bytes that percent-decoding `b` gives: `%XY` with two hex digits
/// gives the byte `0xXY`; a `%` without two hex digits after it is dropped
/// together with the (up to two) bytes after it; other bytes stay.
pub open spec fn unescaped(b: Seq<u8>) -> Seq<u8>
    decreases b.len(),
{
    if b.len() == 0 {
        Seq::empty()
    } else if b[0] == 0x25 {
        let hi = if b.len() > 1 {
            hex_value(b[1])
        } else {
            None
        };
        let lo = if b.len() > 2 {
            hex_value(b[2])
        } else {
            None
        };
        let rest = if b.len() >= 3 {
            b.skip(3)
        } else {
            Seq::empty()
        };
        match (hi, lo) {
            (Some(h), Some(l)) => seq![(h * 16 + l) as u8] + unescaped(rest),
            _ => unescaped(rest),
        }
    } else {
        seq![b[0]] + unescaped(b.skip(1))
    }
}

/// Percent-decoding of the UTF-8 text `b`: the unescaped bytes, read as
/// UTF-8.
pub open spec fn percent_decoded(b: Seq<u8>) -> Seq<char> {
    utf8_lossy(unescaped(b))
}

/// Bytes with no `%` among them pass through unescaping untouched.
proof fn lemma_unescaped_plain_prefix(x: Seq<u8>, y: Seq<u8>)
    requires
        forall|i: int| 0 <= i < x.len() ==> #[trigger] x[i] != 0x25,
    ensures
        unescaped(x + y) == x + unescaped(y),
    decreases x.len(),
{
    if x.len() > 0 {
        let rest = x.drop_first();
        assert forall|i: int| 0 <= i < rest.len() implies #[trigger] rest[i] != 0x25 by {
            assert(rest[i] == x[i + 1]);
        }
        lemma_unescaped_plain_prefix(rest, y);
        assert((x + y)[0] == x[0]);
        assert((x + y).skip(1) =~= rest + y);
        assert(x =~= seq![x[0]] + rest);
        assert(seq![x[0]] + (rest + unescaped(y)) =~= x + unescaped(y));
    } else {
        assert(x + y =~= y);
        assert(x + unescaped(y) =~= unescaped(y));
    }
}

/// The UTF-8 bytes of a char other than `%` hold no `%` byte.
proof fn lemma_scalar_has_no_percent(c: char)
    requires
        c != '%',
    ensures
        forall|i: int| 0 <= i < encode_scalar(c as u32).len() ==> #[trigger] encode_scalar(c as u32)[i] != 0x25,
{
    let u = c as u32;
    vstd::utf8::char_u32_cast(c, u);
    assert(u != 0x25);
    let e = encode_scalar(u);
    assert((u & 0x7F) as u8 != 0x25u8 || u >= 0x80) by (bit_vector)
        requires
            u != 0x25,
    ;
    lemma_marked_bytes_not_percent();
}

/// Bytes with their top bit set are not `%`.
proof fn lemma_marked_bytes_not_percent()
    by (bit_vector)
    ensures
        forall|x: u32| #[trigger] (0xC0u8 | ((x >> 6) & 0x1F) as u8) != 0x25u8,
        forall|x: u32| #[trigger] (0xE0u8 | ((x >> 12) & 0x0F) as u8) != 0x25u8,
        forall|x: u32| #[trigger] (0xF0u8 | ((x >> 18) & 0x7) as u8) != 0x25u8,
        forall|x: u32| #[trigger] (0x80u8 | (x & 0x3F) as u8) != 0x25u8,
        forall|x: u32| #[trigger] (0x80u8 | ((x >> 6) & 0x3F) as u8) != 0x25u8,
        forall|x: u32| #[trigger] (0x80u8 | ((x >> 12) & 0x3F) as u8) != 0x25u8,
{
}

/// Text with no `%` is left as it is by unescaping.
proof fn lemma_plain_text_unescaped(s: Seq<char>)
    requires
        forall|i: int| 0 <= i < s.len() ==> #[trigger] s[i] != '%',
    ensures
        unescaped(encode_utf8(s)) == encode_utf8(s),
    decreases s.len(),
{
    if s.len() > 0 {
        let rest = s.drop_first();
        assert forall|i: int| 0 <= i < rest.len() implies #[trigger] rest[i] != '%' by {
            assert(rest[i] == s[i + 1]);
        }
        lemma_plain_text_unescaped(rest);
        assert(s[0] != '%');
        lemma_scalar_has_no_percent(s[0]);
        lemma_unescaped_plain_prefix(encode_scalar(s[0] as u32), encode_utf8(rest));
    } else {
        assert(encode_utf8(s) =~= Seq::<u8>::empty());
    }
}

/// The uppercase hexadecimal digit for `n` (below 16), as a byte.
pub open spec fn hex_digit_byte(n: int) -> u8 {
    if n < 10 {
        (0x30 + n) as u8
    } else {
        (0x41 + n - 10) as u8
    }
}

/// Every byte comes back from its escape: `%` and the two hexadecimal
/// digits of `b` unescape to the byte `b`, whatever follows.
pub proof fn law_escapes_decode(b: u8, rest: Seq<u8>)
    ensures
        unescaped(seq![0x25u8, hex_digit_byte(b as int / 16), hex_digit_byte(b as int % 16)] + rest) == seq![b]
            + unescaped(rest),
{
    let s = seq![0x25u8, hex_digit_byte(b as int / 16), hex_digit_byte(b as int % 16)] + rest;
    assert(s[0] == 0x25u8);
    assert(hex_value(s[1]) == Some((b as int / 16) as u32));
    assert(hex_value(s[2]) == Some((b as int % 16) as u32));
    assert(s.skip(3) =~= rest);
    assert((b / 16) * 16 + b % 16 == b) by (nonlinear_arith);
}

fn hex_digit(b: u8) -> (v: Option<u32>)
    ensures
        v == hex_value(b),
{
    if 0x30 <= b && b <= 0x39 {
        Some((b - 0x30) as u32)
    } else if 0x41 <= b && b <= 0x46 {
        Some((b - 0x41 + 10) as u32)
    } else if 0x61 <= b && b <= 0x66 {
        Some((b - 0x61 + 10) as u32)
    } else {
        None
    }
}

/// Decode percent-encoded URL path (e.g. %20 -> space): the escapes are
/// turned into their bytes and the bytes read as UTF-8, so text with no `%`
/// comes back as it is.
pub fn percent_decode(input: &str) -> (out: String)
    ensures
        out@ == percent_decoded(encode_utf8(input@)),
        valid_utf8(unescaped(encode_utf8(input@))) ==> out@ == decode_utf8(unescaped(encode_utf8(input@))),
        (forall|i: int| 0 <= i < input@.len() ==> #[trigger] input@[i] != '%') ==> out@ == input@,
{
    let bytes = input.as_bytes();
    let ghost b = bytes@;
    let mut result: Vec<u8> = Vec::new();
    let mut i: usize = 0;
    assert(b.skip(0) =~= b);
    while i < bytes.len()
        invariant
            b == bytes@,
            b == encode_utf8(input@),
            i <= b.len(),
            unescaped(b) == result@ + unescaped(b.skip(i as int)),
        decreases b.len() - i,
    {
        let ghost rest = b.skip(i as int);
        let byte = bytes[i];
        i = i + 1;
        if byte == 0x25 {
            let mut hi: Option<u32> = None;
            if i < bytes.len() {
                hi = hex_digit(bytes[i]);
                i = i + 1;
            }
            let mut lo: Option<u32> = None;
            if i < bytes.len() {
                lo = hex_digit(bytes[i]);
                i = i + 1;
            }
            proof {
                assert(rest.len() >= 3 ==> rest.skip(3) =~= b.skip(i as int));
                assert(rest.len() < 3 ==> b.skip(i as int) =~= Seq::<u8>::empty());
            }
            match (hi, lo) {
                (Some(h), Some(l)) => {
                    let ghost before = result@;
                    result.push((h * 16 + l) as u8);
                    assert(result@ + unescaped(b.skip(i as int)) =~= before + (seq![(h * 16 + l) as u8]
                        + unescaped(b.skip(i as int))));
                },
                _ => {},
            }
        } else {
            let ghost before = result@;
            result.push(byte);
            assert(rest.skip(1) =~= b.skip(i as int));
            assert(result@ + unescaped(b.skip(i as int)) =~= before + (seq![byte] + unescaped(
                b.skip(i as int),
            )));
        }
    }
    assert(b.skip(i as int) =~= Seq::<u8>::empty());
    assert(result@ + Seq::<u8>::empty() =~= result@);
    proof {
        if forall|k: int| 0 <= k < input@.len() ==> #[trigger] input@[k] != '%' {
            lemma_plain_text_unescaped(input@);
            vstd::utf8::encode_utf8_valid_utf8(input@);
            vstd::utf8::encode_utf8_decode_utf8(input@);
        }
    }
    from_utf8_lossy(result.as_slice())
}

/// The first position `i >= from` where `pat` occurs in `s`.
pub open spec fn find_from(s: Seq<char>, pat: Seq<char>, from: int) -> Option<int>
    decreases s.len() + 1 - from,
{
    if from < 0 || from + pat.len() > s.len() {
        None
    } else if s.subrange(from, from + pat.len()) == pat {
        Some(from)
    } else {
        find_from(s, pat, from + 1)
    }
}

/// The path of a `file://host/path` URL: what follows the first `/` after
/// the first `//`, that `/` included.
pub open spec fn url_path(url: Seq<char>) -> Option<Seq<char>> {
    match find_from(url, seq!['/', '/'], 0) {
        None => None,
        Some(pos) => {
            let after = url.skip(pos + 2);
            match find_from(after, seq!['/'], 0) {
                None => None,
                Some(slash) => Some(after.skip(slash)),
            }
        },
    }
}

/// The URL that an OSC 7 sequence carries: the second parameter when the
/// first is `7`, or what follows `7;` when the first parameter starts so.
pub open spec fn osc7_url(params: Seq<Seq<u8>>) -> Option<Seq<char>> {
    if params.len() == 0 {
        None
    } else {
        let first = utf8_lossy(params[0]);
        if first == seq!['7'] {
            if params.len() > 1 {
                Some(utf8_lossy(params[1]))
            } else {
                None
            }
        } else if first.len() >= 2 && first[0] == '7' && first[1] == ';' {
            Some(first.skip(2))
        } else {
            None
        }
    }
}

/// The working directory that an OSC sequence reports, if it is an OSC 7
/// with a `scheme://host/path` URL: the path, percent-decoded.
pub open spec fn osc_cwd(params: Seq<Seq<u8>>) -> Option<Seq<char>> {
    match osc7_url(params) {
        None => None,
        Some(url) => match url_path(url) {
            None => None,
            Some(path) => Some(percent_decoded(encode_utf8(path))),
        },
    }
}

/// Where `pat` first occurs in `s` at or after `from`.
fn find(s: &Vec<char>, pat: &Vec<char>, from: usize) -> (r: Option<usize>)
    requires
        from <= s.len(),
    ensures
        match r {
            None => find_from(s@, pat@, from as int) is None,
            Some(i) => find_from(s@, pat@, from as int) == Some(i as int) && from <= i && i
                + pat.len() <= s.len(),
        },
    decreases s.len() - from,
{
    proof {
        lemma_find_from_bounds(s@, pat@, from as int);
    }
    if pat.len() > s.len() - from {
        return None;
    }
    let mut k: usize = 0;
    while k < pat.len()
        invariant
            from + pat.len() <= s.len(),
            k <= pat.len(),
            forall|j: int| 0 <= j < k ==> s@[from + j] == pat@[j],
        decreases pat.len() - k,
    {
        if s[from + k] != pat[k] {
            assert(s@.subrange(from as int, from + pat.len())[k as int] != pat@[k as int]);
            return find(s, pat, from + 1);
        }
        k = k + 1;
    }
    assert(s@.subrange(from as int, from + pat.len()) =~= pat@);
    Some(from)
}

/// The chars of `s`.
pub fn chars_of(s: &str) -> (v: Vec<char>)
    ensures
        v@ == s@,
{
    let mut v: Vec<char> = Vec::new();
    for c in it: s.chars()
        invariant
            it.seq() == s@,
            v@ == it.seq().take(it.index() as int),
    {
        v.push(c);
        assert(v@ =~= it.seq().take(it.index() + 1));
    }
    assert(v@ =~= s@);
    v
}

fn string_of(v: &Vec<char>, from: usize) -> (s: String)
    requires
        from <= v.len(),
    ensures
        s@ == v@.skip(from as int),
{
    let mut s = String::new();
    let mut i = from;
    while i < v.len()
        invariant
            from <= i <= v.len(),
            s@ == v@.subrange(from as int, i as int),
        decreases v.len() - i,
    {
        push_char(&mut s, v[i]);
        assert(s@ =~= v@.subrange(from as int, i + 1));
        i = i + 1;
    }
    assert(s@ =~= v@.skip(from as int));
    s
}

/// The working directory that an OSC sequence with parameters `params`
/// reports, if it is an OSC 7 with a `file://host/path` URL.
pub fn cwd_from_osc(params: &Vec<Vec<u8>>) -> (cwd: Option<String>)
    ensures
        match cwd {
            None => osc_cwd(params@.map_values(|p: Vec<u8>| p@)) is None,
            Some(c) => osc_cwd(params@.map_values(|p: Vec<u8>| p@)) == Some(c@),
        },
{
    let ghost ps = params@.map_values(|p: Vec<u8>| p@);
    if params.len() == 0 {
        return None;
    }
    assert(ps[0] == params@[0]@);
    let first = chars_of(from_utf8_lossy(params[0].as_slice()).as_str());
    // Check if first param is "7" and URL is in second param
    let url: Vec<char> = if first.len() == 1 && first[0] == '7' {
        assert(first@ =~= seq!['7']);
        if params.len() > 1 {
            assert(ps[1] == params@[1]@);
            chars_of(from_utf8_lossy(params[1].as_slice()).as_str())
        } else {
            return None;
        }
    } else if first.len() >= 2 && first[0] == '7' && first[1] == ';' {
        // Single param format: "7;file://host/path"
        assert(first@ != seq!['7']);
        let s = string_of(&first, 2);
        chars_of(s.as_str())
    } else {
        assert(first@ != seq!['7']);
        return None;
    };
    // Extract path from file://hostname/path
    let mut scheme_end: Vec<char> = Vec::new();
    scheme_end.push('/');
    scheme_end.push('/');
    assert(scheme_end@ =~= seq!['/', '/']);
    let pos = match find(&url, &scheme_end, 0) {
        Some(p) => p,
        None => {
            return None;
        },
    };
    let after = chars_of(string_of(&url, pos + 2).as_str());
    let mut slash: Vec<char> = Vec::new();
    slash.push('/');
    assert(slash@ =~= seq!['/']);
    let slash_pos = match find(&after, &slash, 0) {
        Some(p) => p,
        None => {
            return None;
        },
    };
    let path = string_of(&after, slash_pos);
    Some(percent_decode(path.as_str()))
}

/// What `str::lines` yields first of `s`, and where the rest begins: the
/// text up to the first LF (a CR just before that LF dropped), or all of
/// `s` when it holds no LF.
pub open spec fn first_line(s: Seq<char>) -> (Seq<char>, Option<Seq<char>>) {
    match find_from(s, seq!['\n'], 0) {
        None => (s, None),
        Some(e) => {
            let line = s.take(e);
            (
                if line.len() > 0 && line.last() == '\r' {
                    line.drop_last()
                } else {
                    line
                },
                Some(s.skip(e + 1)),
            )
        },
    }
}

/// The path that `lsof -Fn` output names: the rest of its first line that
/// starts with `n`.
pub open spec fn lsof_path(s: Seq<char>) -> Option<Seq<char>>
    decreases s.len(),
{
    let (line, rest) = first_line(s);
    if line.len() > 0 && line[0] == 'n' {
        Some(line.skip(1))
    } else {
        match rest {
            None => None,
            Some(r) => if r.len() < s.len() {
                lsof_path(r)
            } else {
                None
            },
        }
    }
}

/// The working directory named in `lsof -p PID -Fn -a -d cwd` output.
pub fn lsof_cwd(output: &str) -> (cwd: Option<String>)
    ensures
        match cwd {
            None => lsof_path(output@) is None,
            Some(c) => lsof_path(output@) == Some(c@),
        },
{
    let chars = chars_of(output);
    let mut nl: Vec<char> = Vec::new();
    nl.push('\n');
    assert(nl@ =~= seq!['\n']);
    let mut start: usize = 0;
    assert(chars@.skip(0) =~= chars@);
    while start < chars.len()
        invariant
            nl@ == seq!['\n'],
            start <= chars.len(),
            lsof_path(output@) == lsof_path(chars@.skip(start as int)),
            chars@ == output@,
        decreases chars.len() - start,
    {
        let ghost s = chars@.skip(start as int);
        let found = find(&chars, &nl, start);
        proof {
            lemma_find_shift(chars@, nl@, start as int);
        }
        let end = match found {
            Some(e) => e,
            None => chars.len(),
        };
        // The line is chars[start..end], without a CR that ends it before a LF.
        let mut line_end = end;
        if end < chars.len() && end > start && chars[end - 1] == '\r' {
            line_end = end - 1;
        }
        let ghost line = first_line(s).0;
        proof {
            if end < chars.len() {
                assert(s.take(end - start) =~= chars@.subrange(start as int, end as int));
                if end > start && chars@[end - 1] == '\r' {
                    assert(line =~= chars@.subrange(start as int, line_end as int));
                } else {
                    assert(line =~= chars@.subrange(start as int, line_end as int));
                }
            } else {
                assert(line =~= chars@.subrange(start as int, line_end as int));
            }
        }
        if line_end > start && chars[start] == 'n' {
            let mut path = String::new();
            let mut k = start + 1;
            while k < line_end
                invariant
                    start < k <= line_end <= chars.len(),
                    path@ == chars@.subrange(start + 1, k as int),
                decreases line_end - k,
            {
                push_char(&mut path, chars[k]);
                assert(path@ =~= chars@.subrange(start + 1, k + 1));
                k = k + 1;
            }
            proof {
                assert(path@ =~= line.skip(1));
            }
            return Some(path);
        }
        proof {
            let rest = first_line(s).1;
            if end < chars.len() {
                assert(s.skip(end - start + 1) =~= chars@.skip(end + 1));
                assert(rest == Some(chars@.skip(end + 1)));
            }
        }
        if end >= chars.len() {
            return None;
        }
        start = end + 1;
    }
    proof {
        assert(chars@.skip(start as int).len() == 0);
        let (line, rest) = first_line(chars@.skip(start as int));
        assert(find_from(chars@.skip(start as int), seq!['\n'], 0) is None);
    }
    None
}

/// A match that `find_from` reports lies within `s`, at or after `from`.
proof fn lemma_find_from_bounds(s: Seq<char>, pat: Seq<char>, from: int)
    ensures
        find_from(s, pat, from) matches Some(i) ==> from <= i && i + pat.len() <= s.len(),
    decreases s.len() + 1 - from,
{
    if from >= 0 && from + pat.len() <= s.len() && s.subrange(from, from + pat.len()) != pat {
        lemma_find_from_bounds(s, pat, from + 1);
    }
}

/// Searching a suffix of `s` is searching `s` from where the suffix starts.
proof fn lemma_find_shift(s: Seq<char>, pat: Seq<char>, start: int)
    requires
        0 <= start <= s.len(),
    ensures
        match find_from(s, pat, start) {
            None => find_from(s.skip(start), pat, 0) is None,
            Some(i) => find_from(s.skip(start), pat, 0) == Some(i - start) && start <= i,
        },
    decreases s.len() - start,
{
    lemma_find_shift_from(s, pat, start, start);
}

proof fn lemma_find_shift_from(s: Seq<char>, pat: Seq<char>, start: int, from: int)
    requires
        0 <= start <= from,
        start <= s.len(),
    ensures
        match find_from(s, pat, from) {
            None => find_from(s.skip(start), pat, from - start) is None,
            Some(i) => find_from(s.skip(start), pat, from - start) == Some(i - start) && from <= i,
        },
    decreases s.len() + 1 - from,
{
    if from + pat.len() <= s.len() {
        assert(s.skip(start).subrange(from - start, from - start + pat.len()) =~= s.subrange(
            from,
            from + pat.len(),
        ));
        if s.subrange(from, from + pat.len()) != pat {
            lemma_find_shift_from(s, pat, start, from + 1);
        }
    }
}

/// Which shell runs in the pane, as far as its start-up script goes.
#[derive(Clone, Copy, PartialEq, Eq, Structural, Debug)]
pub enum ShellKind {
    Zsh,
    Bash,
    Other,
}

pub open spec fn contains_seq(s: Seq<char>, pat: Seq<char>) -> bool {
    find_from(s, pat, 0) is Some
}

/// The kind of the shell at path `shell`: zsh if the path mentions `zsh`,
/// else bash if it mentions `bash`.
pub fn shell_kind(shell: &str) -> (k: ShellKind)
    ensures
        k == (if contains_seq(shell@, seq!['z', 's', 'h']) {
            ShellKind::Zsh
        } else if contains_seq(shell@, seq!['b', 'a', 's', 'h']) {
            ShellKind::Bash
        } else {
            ShellKind::Other
        }),
{
    let s = chars_of(shell);
    let mut zsh: Vec<char> = Vec::new();
    zsh.push('z');
    zsh.push('s');
    zsh.push('h');
    assert(zsh@ =~= seq!['z', 's', 'h']);
    let mut bash: Vec<char> = Vec::new();
    bash.push('b');
    bash.push('a');
    bash.push('s');
    bash.push('h');
    assert(bash@ =~= seq!['b', 'a', 's', 'h']);
    if find(&s, &zsh, 0).is_some() {
        ShellKind::Zsh
    } else if find(&s, &bash, 0).is_some() {
        ShellKind::Bash
    } else {
        ShellKind::Other
    }
}

/// Remembers the last working directory seen of the shell.
pub struct CwdTracker {
    pub last_known_cwd: Option<String>,
}

impl CwdTracker {
    pub fn new() -> (t: CwdTracker)
        ensures
            t.last_known_cwd is None,
    {
        CwdTracker { last_known_cwd: None }
    }

    /// A directory that the shell reported itself: always taken.
    pub fn note_reported(&mut self, cwd: String) -> (r: String)
        ensures
            r@ == cwd@,
            final(self).last_known_cwd matches Some(k) && k@ == cwd@,
    {
        self.last_known_cwd = Some(cwd.clone());
        cwd
    }

    /// A directory found by querying the shell process: taken only when it
    /// differs from the last one seen.
    pub fn note_queried(&mut self, cwd: String) -> (r: Option<String>)
        ensures
            match old(self).last_known_cwd {
                Some(k) if k@ == cwd@ => r is None && final(self).last_known_cwd == old(
                    self,
                ).last_known_cwd,
                _ => (r matches Some(c) && c@ == cwd@) && (final(self).last_known_cwd matches Some(
                    k,
                ) && k@ == cwd@),
            },
    {
        let same = match &self.last_known_cwd {
            Some(k) => *k == cwd,
            None => false,
        };
        if !same {
            self.last_known_cwd = Some(cwd.clone());
            return Some(cwd);
        }
        None
    }
}

} // verus!
