//! The JSON text of an array of strings, as `serde_json` writes it.
use vstd::prelude::*;

verus! {

/// The lower-case hexadecimal digit for a value below sixteen.
pub open spec fn hex_digit(n: nat) -> char {
    if n < 10 {
        ((48 + n) as u8) as char
    } else {
        ((87 + n) as u8) as char
    }
}

/// How one character stands inside a JSON string: quote and backslash
/// behind a backslash, the control characters with a short escape where
/// JSON has one and as `\u00XX` otherwise, every other character as it is.
pub open spec fn json_escape_char(c: char) -> Seq<char> {
    if c == '"' {
        seq!['\\', '"']
    } else if c == '\\' {
        seq!['\\', '\\']
    } else if c == '\u{8}' {
        seq!['\\', 'b']
    } else if c == '\t' {
        seq!['\\', 't']
    } else if c == '\n' {
        seq!['\\', 'n']
    } else if c == '\u{C}' {
        seq!['\\', 'f']
    } else if c == '\r' {
        seq!['\\', 'r']
    } else if (c as int) < 0x20 {
        seq!['\\', 'u', '0', '0', hex_digit(((c as int) / 16) as nat), hex_digit(((c as int) % 16) as nat)]
    } else {
        seq![c]
    }
}

/// The characters of `s`, each as it stands inside a JSON string.
pub open spec fn json_escaped(s: Seq<char>) -> Seq<char>
    decreases s.len(),
{
    if s.len() == 0 {
        seq![]
    } else {
        json_escape_char(s[0]) + json_escaped(s.drop_first())
    }
}

/// `s` as a JSON string.
pub open spec fn json_string(s: Seq<char>) -> Seq<char> {
    seq!['"'] + json_escaped(s) + seq!['"']
}

/// The JSON strings of `items`, separated by commas.
pub open spec fn json_items(items: Seq<Seq<char>>) -> Seq<char>
    decreases items.len(),
{
    if items.len() == 0 {
        seq![]
    } else if items.len() == 1 {
        json_string(items[0])
    } else {
        json_string(items[0]) + seq![','] + json_items(items.drop_first())
    }
}

/// `items` as a compact JSON array of strings.
pub open spec fn json_string_array(items: Seq<Seq<char>>) -> Seq<char> {
    seq!['['] + json_items(items) + seq![']']
}

/// The value of a lower-case hexadecimal digit.
pub open spec fn hex_value(c: char) -> Option<int> {
    if '0' <= c <= '9' {
        Some(c as int - 48)
    } else if 'a' <= c <= 'f' {
        Some(c as int - 87)
    } else {
        None
    }
}

/// The character that a backslash followed by `e` stands for, where `e` is one
/// character.
pub open spec fn short_escape(e: char) -> Option<char> {
    if e == '"' {
        Some('"')
    } else if e == '\\' {
        Some('\\')
    } else if e == 'b' {
        Some('\u{8}')
    } else if e == 't' {
        Some('\t')
    } else if e == 'n' {
        Some('\n')
    } else if e == 'f' {
        Some('\u{C}')
    } else if e == 'r' {
        Some('\r')
    } else {
        None
    }
}

/// Reads the rest of a JSON string from `s`, which follows its opening
/// quote: the characters it stands for, and how many characters of `s` it
/// takes up to and including the closing quote. Escapes are read back as
/// `json_escape_char` writes them.
pub open spec fn read_string(s: Seq<char>) -> Option<(Seq<char>, int)>
    decreases s.len(),
{
    if s.len() == 0 {
        None
    } else if s[0] == '"' {
        Some((seq![], 1))
    } else if s[0] == '\\' {
        if s.len() >= 2 && short_escape(s[1]) is Some {
            match read_string(s.skip(2)) {
                Some((x, n)) => Some((seq![short_escape(s[1])->0] + x, n + 2)),
                None => None,
            }
        } else if s.len() >= 6 && s[1] == 'u' && s[2] == '0' && s[3] == '0' && hex_value(s[4]) is Some
            && hex_value(s[5]) is Some {
            match read_string(s.skip(6)) {
                Some((x, n)) => Some(
                    (seq![(16 * hex_value(s[4])->0 + hex_value(s[5])->0) as char] + x, n + 6),
                ),
                None => None,
            }
        } else {
            None
        }
    } else {
        match read_string(s.drop_first()) {
            Some((x, n)) => Some((seq![s[0]] + x, n + 1)),
            None => None,
        }
    }
}

/// Reads JSON strings separated by commas from `s` up to the closing `]`
/// of the array they belong to, which must end `s`.
pub open spec fn read_items(s: Seq<char>) -> Option<Seq<Seq<char>>>
    decreases s.len(),
{
    if s.len() > 0 && s[0] == '"' {
        match read_string(s.drop_first()) {
            Some((x, n)) => if 0 <= n && n + 1 <= s.len() {
                let rest = s.skip(n + 1);
                if rest == seq![']'] {
                    Some(seq![x])
                } else if rest.len() > 0 && rest[0] == ',' {
                    match read_items(rest.drop_first()) {
                        Some(xs) => Some(seq![x] + xs),
                        None => None,
                    }
                } else {
                    None
                }
            } else {
                None
            },
            None => None,
        }
    } else {
        None
    }
}

/// Reads a compact JSON array of strings, of the form that
/// `json_string_array` describes, back into its strings.
pub open spec fn read_string_array(s: Seq<char>) -> Option<Seq<Seq<char>>> {
    if s == seq!['[', ']'] {
        Some(seq![])
    } else if s.len() > 0 && s[0] == '[' {
        read_items(s.drop_first())
    } else {
        None
    }
}

proof fn lemma_hex_digit(n: nat)
    requires
        n < 16,
    ensures
        hex_value(hex_digit(n)) == Some(n as int),
{
}

proof fn lemma_char_nonnegative(c: char)
    ensures
        0 <= c as int,
{
}

proof fn lemma_read_string(x: Seq<char>, t: Seq<char>)
    ensures
        read_string(json_escaped(x) + seq!['"'] + t) == Some((x, json_escaped(x).len() as int + 1)),
    decreases x.len(),
{
    let s = json_escaped(x) + seq!['"'] + t;
    if x.len() == 0 {
        assert(s =~= seq!['"'] + t);
    } else {
        let c = x[0];
        let r = x.drop_first();
        let e = json_escape_char(c);
        let tail = json_escaped(r) + seq!['"'] + t;
        lemma_read_string(r, t);
        assert(s =~= e + tail);
        assert(x =~= seq![c] + r);
        if c == '"' || c == '\\' || c == '\u{8}' || c == '\t' || c == '\n' || c == '\u{C}' || c
            == '\r' {
            assert(e.len() == 2);
            assert(s.skip(2) =~= tail);
        } else if (c as int) < 0x20 {
            let v = c as int;
            lemma_char_nonnegative(c);
            assert(0 <= v < 32);
            lemma_hex_digit((v / 16) as nat);
            lemma_hex_digit((v % 16) as nat);
            assert(16 * (v / 16) + v % 16 == v);
            assert(e.len() == 6);
            assert(s.skip(6) =~= tail);
            assert(s[4] == hex_digit((v / 16) as nat));
            assert(s[5] == hex_digit((v % 16) as nat));
            assert((v as char) == c);
        } else {
            assert(e =~= seq![c]);
            assert(s.drop_first() =~= tail);
        }
    }
}

proof fn lemma_read_items(items: Seq<Seq<char>>)
    requires
        items.len() > 0,
    ensures
        read_items(json_items(items) + seq![']']) == Some(items),
    decreases items.len(),
{
    let x = items[0];
    let s = json_items(items) + seq![']'];
    if items.len() == 1 {
        lemma_read_string(x, seq![']']);
        assert(s =~= seq!['"'] + (json_escaped(x) + seq!['"'] + seq![']']));
        assert(s.drop_first() =~= json_escaped(x) + seq!['"'] + seq![']']);
        assert(s.skip(json_escaped(x).len() as int + 2) =~= seq![']']);
        assert(items =~= seq![x]);
    } else {
        let more = json_items(items.drop_first()) + seq![']'];
        lemma_read_string(x, seq![','] + more);
        lemma_read_items(items.drop_first());
        assert(s =~= seq!['"'] + (json_escaped(x) + seq!['"'] + (seq![','] + more)));
        assert(s.drop_first() =~= json_escaped(x) + seq!['"'] + (seq![','] + more));
        let rest = s.skip(json_escaped(x).len() as int + 2);
        assert(rest =~= seq![','] + more);
        assert(rest != seq![']']) by {
            if rest == seq![']'] {
                assert(rest[0] == ',');
            }
        }
        assert(rest.drop_first() =~= more);
        assert(items =~= seq![x] + items.drop_first());
    }
}

/// The JSON text of a list of paths reads back as the same list: the same
/// strings in the same order, repeats kept, and `[]` for no paths.
pub proof fn law_json_string_array_reads_back(items: Seq<Seq<char>>)
    ensures
        read_string_array(json_string_array(items)) == Some(items),
{
    let s = json_string_array(items);
    if items.len() == 0 {
        assert(s =~= seq!['[', ']']);
        assert(items =~= seq![]);
    } else {
        lemma_read_items(items);
        assert(s.drop_first() =~= json_items(items) + seq![']']);
        assert(s != seq!['[', ']']) by {
            assert(s.len() >= 4);
        }
    }
}

/// Two lists of paths with the same JSON text are the same list.
pub proof fn law_json_string_array_is_injective(a: Seq<Seq<char>>, b: Seq<Seq<char>>)
    requires
        json_string_array(a) == json_string_array(b),
    ensures
        a == b,
{
    law_json_string_array_reads_back(a);
    law_json_string_array_reads_back(b);
}

/// `serde_json::to_string` on a vector of strings: it writes a compact array
/// of strings, escaping as `json_escape_char` says, and cannot fail, since
/// neither a string's serialization nor the in-memory writer reports an
/// error.
#[verifier::external_body]
pub(crate) fn to_json(items: &Vec<String>) -> (r: core::result::Result<String, serde_json::Error>)
    ensures
        r is Ok,
        r matches Ok(s) ==> s@ == json_string_array(items.deep_view()),
{
    serde_json::to_string(items)
}

} // verus!
