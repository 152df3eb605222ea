//! Reading one command line: tokens, identifiers, statuses and command words.
use vstd::prelude::*;
use crate::text::{chars_of, push_char};
use crate::todo::{status_word_spec, TodoStatus};

verus! {

/// What `str::to_lowercase` makes of a string.
pub uninterp spec fn lower_of(s: Seq<char>) -> Seq<char>;

/// What `str::to_uppercase` makes of a string.
pub uninterp spec fn upper_of(s: Seq<char>) -> Seq<char>;

/// Relies on `str::to_lowercase`: the Unicode lower-case mapping of `s`,
/// which depends on the characters of `s` alone.
#[verifier::external_body]
pub(crate) fn lowercase(s: &str) -> (r: String)
    ensures
        r@ == lower_of(s@),
{
    s.to_lowercase()
}

/// Relies on `str::to_uppercase`: the Unicode upper-case mapping of `s`,
/// which depends on the characters of `s` alone.
#[verifier::external_body]
fn uppercase(s: &str) -> (r: String)
    ensures
        r@ == upper_of(s@),
{
    s.to_uppercase()
}

/// The character values of a sequence of strings.
pub open spec fn texts(v: Seq<String>) -> Seq<Seq<char>> {
    v.map_values(|s: String| s@)
}

/// The characters with the Unicode `White_Space` property, which is what
/// `char::is_whitespace` tests.
pub open spec fn is_white_space(c: char) -> bool {
    ||| '\u{9}' <= c <= '\u{d}'
    ||| c == ' '
    ||| c == '\u{85}'
    ||| c == '\u{a0}'
    ||| c == '\u{1680}'
    ||| '\u{2000}' <= c <= '\u{200a}'
    ||| c == '\u{2028}'
    ||| c == '\u{2029}'
    ||| c == '\u{202f}'
    ||| c == '\u{205f}'
    ||| c == '\u{3000}'
}

/// Whether `c` is white space.
pub fn white_space(c: char) -> (r: bool)
    ensures
        r == is_white_space(c),
{
    ('\u{9}' <= c && c <= '\u{d}') || c == ' ' || c == '\u{85}' || c == '\u{a0}' || c == '\u{1680}'
        || ('\u{2000}' <= c && c <= '\u{200a}') || c == '\u{2028}' || c == '\u{2029}' || c
        == '\u{202f}' || c == '\u{205f}' || c == '\u{3000}'
}

/// The words of `s`: its maximal runs of characters that are not white
/// space, in order. A blank `s` has none.
pub open spec fn split_words(s: Seq<char>) -> Seq<Seq<char>>
    decreases s.len(),
{
    if s.len() == 0 {
        Seq::empty()
    } else {
        let t = split_words(s.drop_last());
        let c = s.last();
        if is_white_space(c) {
            t
        } else if s.len() >= 2 && !is_white_space(s[s.len() - 2]) {
            t.update(t.len() - 1, t.last().push(c))
        } else {
            t.push(seq![c])
        }
    }
}

/// Cuts `input` into its words, as `str::split_whitespace` does.
pub fn split_tokens(input: &str) -> (r: Vec<String>)
    ensures
        texts(r@) == split_words(input@),
{
    let cs = chars_of(input);
    let mut done: Vec<String> = Vec::new();
    let mut cur = String::new();
    let mut in_word = false;
    let mut i: usize = 0;
    assert(cs@.take(0) =~= Seq::<char>::empty());
    assert(texts(done@) =~= split_words(cs@.take(0)));
    while i < cs.len()
        invariant
            i <= cs@.len(),
            in_word == (i > 0 && !is_white_space(cs@[i - 1])),
            in_word ==> texts(done@).push(cur@) == split_words(cs@.take(i as int)),
            !in_word ==> texts(done@) == split_words(cs@.take(i as int)) && cur@.len() == 0,
        decreases cs@.len() - i,
    {
        let c = cs[i];
        proof {
            assert(cs@.take(i + 1).drop_last() =~= cs@.take(i as int));
            assert(cs@.take(i + 1).last() == c);
            if i > 0 {
                assert(cs@.take(i + 1)[i - 1] == cs@[i - 1]);
            }
        }
        if white_space(c) {
            if in_word {
                done.push(cur);
                cur = String::new();
                assert(texts(done@) =~= split_words(cs@.take(i + 1)));
            }
            in_word = false;
        } else {
            let ghost before = texts(done@).push(cur@);
            let ghost was = texts(done@);
            push_char(&mut cur, c);
            if in_word {
                assert(texts(done@).push(cur@) =~= before.update(
                    before.len() - 1,
                    before.last().push(c),
                ));
            } else {
                assert(cur@ =~= seq![c]);
                assert(texts(done@).push(cur@) =~= was.push(seq![c]));
            }
            in_word = true;
        }
        i = i + 1;
    }
    assert(cs@.take(cs@.len() as int) =~= input@);
    if in_word {
        done.push(cur);
        assert(texts(done@) =~= split_words(input@));
    }
    done
}

pub open spec fn is_digit(c: char) -> bool {
    '0' <= c <= '9'
}

/// The number that the decimal digits `d` spell.
pub open spec fn decimal_value(d: Seq<char>) -> nat
    decreases d.len(),
{
    if d.len() == 0 {
        0
    } else {
        decimal_value(d.drop_last()) * 10 + ((d.last() as u32) - 48) as nat
    }
}

/// `s` without one leading `+`.
pub open spec fn unsigned_part(s: Seq<char>) -> Seq<char> {
    if s.len() > 0 && s[0] == '+' {
        s.drop_first()
    } else {
        s
    }
}

/// The identifier that `s` writes in decimal (one leading `+` allowed), when
/// it lies in `1..=255`.
pub open spec fn id_of(s: Seq<char>) -> Option<u8> {
    let d = unsigned_part(s);
    if d.len() > 0 && (forall|i: int| 0 <= i < d.len() ==> is_digit(#[trigger] d[i])) && 1
        <= decimal_value(d) <= 255 {
        Some(decimal_value(d) as u8)
    } else {
        None
    }
}

/// Reads an identifier; `None` for anything but a decimal number in `1..=255`.
pub fn parse_id(value: &str) -> (r: Option<u8>)
    ensures
        r == id_of(value@),
{
    let cs = chars_of(value);
    let start: usize = if cs.len() > 0 && cs[0] == '+' {
        1
    } else {
        0
    };
    let ghost d = cs@.subrange(start as int, cs@.len() as int);
    assert(d =~= unsigned_part(value@));
    if start == cs.len() {
        return None;
    }
    let mut acc: u32 = 0;
    let mut i: usize = start;
    assert(d.take(0) =~= Seq::<char>::empty());
    while i < cs.len()
        invariant
            start <= i <= cs@.len(),
            d == cs@.subrange(start as int, cs@.len() as int),
            d == unsigned_part(value@),
            forall|j: int| 0 <= j < i - start ==> is_digit(#[trigger] d[j]),
            acc as nat == if decimal_value(d.take(i - start)) < 256 {
                decimal_value(d.take(i - start))
            } else {
                256
            },
        decreases cs@.len() - i,
    {
        let c = cs[i];
        assert(d[i - start] == c);
        if !('0' <= c && c <= '9') {
            assert(!is_digit(d[i - start]));
            return None;
        }
        proof {
            assert(d.take(i - start + 1).drop_last() =~= d.take(i - start));
        }
        let v = acc * 10 + ((c as u32) - 48);
        acc = if v < 256 {
            v
        } else {
            256
        };
        i = i + 1;
    }
    assert(d.take(i - start) =~= d);
    if acc == 0 || acc > 255 {
        None
    } else {
        Some(acc as u8)
    }
}

/// The status that an upper-cased word names.
pub open spec fn status_named(upper: Seq<char>) -> Option<TodoStatus> {
    if upper == status_word_spec(TodoStatus::DONE) {
        Some(TodoStatus::DONE)
    } else if upper == status_word_spec(TodoStatus::TODO) {
        Some(TodoStatus::TODO)
    } else {
        None
    }
}

/// Whether `a` and `b` hold the same characters.
pub fn same_text(a: &str, b: &str) -> (r: bool)
    ensures
        r == (a@ == b@),
{
    let x = chars_of(a);
    let y = chars_of(b);
    if x.len() != y.len() {
        return false;
    }
    let mut i: usize = 0;
    while i < x.len()
        invariant
            x@ == a@,
            y@ == b@,
            x@.len() == y@.len(),
            i <= x@.len(),
            forall|j: int| 0 <= j < i ==> x@[j] == y@[j],
        decreases x@.len() - i,
    {
        if x[i] != y[i] {
            return false;
        }
        i = i + 1;
    }
    assert(x@ =~= y@);
    true
}

/// The status that an already upper-cased word names.
pub fn status_from_upper(upper: &str) -> (r: Option<TodoStatus>)
    ensures
        r == status_named(upper@),
{
    proof {
        reveal_strlit("DONE");
        reveal_strlit("TODO");
        assert("DONE"@ =~= status_word_spec(TodoStatus::DONE));
        assert("TODO"@ =~= status_word_spec(TodoStatus::TODO));
    }
    if same_text(upper, "DONE") {
        Some(TodoStatus::DONE)
    } else if same_text(upper, "TODO") {
        Some(TodoStatus::TODO)
    } else {
        None
    }
}

/// Reads a status, in any case: `done` or `todo`.
pub fn parse_status(value: &str) -> (r: Option<TodoStatus>)
    ensures
        r == status_named(upper_of(value@)),
{
    let up = uppercase(value);
    status_from_upper(up.as_str())
}

} // verus!
