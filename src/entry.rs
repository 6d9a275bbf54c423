use vstd::prelude::*;

verus! {

/// Whether `c` has Unicode's White_Space property, as `char::is_whitespace` reports it.
pub uninterp spec fn white_space(c: char) -> bool;

/// Relies on `char::is_whitespace`: its answer depends on the character alone.
#[verifier::external_body]
fn is_white_space(c: char) -> (r: bool)
    ensures
        r == white_space(c),
{
    c.is_whitespace()
}

/// Relies on `String`'s `FromIterator<&char>`: the string holds the characters in order.
#[verifier::external_body]
fn string_from_chars(chars: &Vec<char>) -> (r: String)
    ensures
        r@ == chars@,
{
    chars.iter().collect()
}

/// `s` without its leading white space.
pub open spec fn trim_start(s: Seq<char>) -> Seq<char>
    decreases s.len(),
{
    if s.len() > 0 && white_space(s[0]) {
        trim_start(s.drop_first())
    } else {
        s
    }
}

/// `s` without its trailing white space.
pub open spec fn trim_end(s: Seq<char>) -> Seq<char>
    decreases s.len(),
{
    if s.len() > 0 && white_space(s.last()) {
        trim_end(s.drop_last())
    } else {
        s
    }
}

/// `s` without white space at either end.
pub open spec fn trimmed(s: Seq<char>) -> Seq<char> {
    trim_end(trim_start(s))
}

/// Index of the last space in `s`, or -1 when there is none.
pub open spec fn last_space(s: Seq<char>) -> int
    decreases s.len(),
{
    if s.len() == 0 {
        -1
    } else if s.last() == ' ' {
        s.len() - 1
    } else {
        last_space(s.drop_last())
    }
}

pub open spec fn is_digit(c: char) -> bool {
    '0' <= c <= '9'
}

/// Value of a run of decimal digits.
pub open spec fn digits_value(s: Seq<char>) -> int
    decreases s.len(),
{
    if s.len() == 0 {
        0
    } else {
        digits_value(s.drop_last()) * 10 + (s.last() as int - '0' as int)
    }
}

pub open spec fn all_digits(s: Seq<char>) -> bool {
    forall|i: int| 0 <= i < s.len() ==> is_digit(#[trigger] s[i])
}

/// The text of a byte-sized unsigned number: an optional `+`, then at least one digit, with a
/// value of at most 255.
pub open spec fn u8_text_value(s: Seq<char>) -> Option<int> {
    let body = if s.len() > 0 && s[0] == '+' {
        s.drop_first()
    } else {
        s
    };
    if body.len() > 0 && all_digits(body) && digits_value(body) <= 255 {
        Some(digits_value(body))
    } else {
        None
    }
}

/// The priority that a trailing token gives: a positive byte-sized number, clamped to 5.
pub open spec fn token_priority(s: Seq<char>) -> Option<int> {
    match u8_text_value(s) {
        Some(v) => if v >= 1 {
            Some(if v > 5 {
                5
            } else {
                v
            })
        } else {
            None
        },
        None => None,
    }
}

/// Name and priority written as `t`: a last word that is a priority is split off; otherwise
/// the whole of `t` is the name and the priority is 1.
pub open spec fn name_and_priority(t: Seq<char>) -> (Seq<char>, int) {
    let i = last_space(t);
    if i >= 0 && token_priority(t.subrange(i + 1, t.len() as int)) is Some {
        (t.subrange(0, i), token_priority(t.subrange(i + 1, t.len() as int))->0)
    } else {
        (t, 1)
    }
}

/// Name and priority of a new task typed as `buffer`, read from the text without white space
/// at either end.
pub open spec fn entry_fields(buffer: Seq<char>) -> (Seq<char>, int) {
    name_and_priority(trimmed(buffer))
}

/// The characters `v[from..to]`.
fn copy_range(v: &Vec<char>, from: usize, to: usize) -> (r: Vec<char>)
    requires
        from <= to <= v.len(),
    ensures
        r@ == v@.subrange(from as int, to as int),
{
    let mut r: Vec<char> = Vec::new();
    let mut i: usize = from;
    while i < to
        invariant
            from <= i <= to <= v.len(),
            r@ == v@.subrange(from as int, i as int),
        decreases to - i,
    {
        r.push(v[i]);
        i += 1;
        assert(r@ =~= v@.subrange(from as int, i as int));
    }
    r
}

/// `s` without white space at either end.
pub fn trim_chars(s: &Vec<char>) -> (r: Vec<char>)
    ensures
        r@ == trimmed(s@),
{
    let len = s.len();
    let mut start: usize = 0;
    assert(s@.subrange(0, len as int) =~= s@);
    while start < len && is_white_space(s[start])
        invariant
            start <= len == s@.len(),
            trim_start(s@) == trim_start(s@.subrange(start as int, len as int)),
        decreases len - start,
    {
        assert(s@.subrange(start as int, len as int).drop_first() =~= s@.subrange(
            start as int + 1,
            len as int,
        ));
        start += 1;
    }
    assert(trim_start(s@) == s@.subrange(start as int, len as int));
    let mut end: usize = len;
    while end > start && is_white_space(s[end - 1])
        invariant
            start <= end <= len == s@.len(),
            trim_start(s@) == s@.subrange(start as int, len as int),
            trimmed(s@) == trim_end(s@.subrange(start as int, end as int)),
        decreases end,
    {
        assert(s@.subrange(start as int, end as int).drop_last() =~= s@.subrange(
            start as int,
            end - 1,
        ));
        end -= 1;
    }
    copy_range(s, start, end)
}

proof fn lemma_last_space_bounds(s: Seq<char>)
    ensures
        -1 <= last_space(s) < s.len(),
        last_space(s) >= 0 ==> s[last_space(s)] == ' ',
    decreases s.len(),
{
    if s.len() > 0 && s.last() != ' ' {
        lemma_last_space_bounds(s.drop_last());
    }
}

/// Index of the last space in `s`, if there is one.
pub fn find_last_space(s: &Vec<char>) -> (r: Option<usize>)
    ensures
        r is None <==> last_space(s@) == -1,
        r matches Some(i) ==> i == last_space(s@),
{
    let mut i: usize = s.len();
    assert(s@.subrange(0, i as int) =~= s@);
    while i > 0 && s[i - 1] != ' '
        invariant
            i <= s@.len(),
            last_space(s@) == last_space(s@.subrange(0, i as int)),
        decreases i,
    {
        assert(s@.subrange(0, i as int).drop_last() =~= s@.subrange(0, i - 1));
        i -= 1;
    }
    if i == 0 {
        assert(s@.subrange(0, 0) =~= Seq::<char>::empty());
        None
    } else {
        Some(i - 1)
    }
}

/// The priority that `token` gives, if it is a positive byte-sized number; values above 5
/// become 5.
pub fn parse_priority(token: &Vec<char>) -> (r: Option<u8>)
    ensures
        r is Some <==> token_priority(token@) is Some,
        r matches Some(p) ==> p == token_priority(token@)->0,
{
    let len = token.len();
    let start: usize = if len > 0 && token[0] == '+' {
        1
    } else {
        0
    };
    let ghost body = if token@.len() > 0 && token@[0] == '+' {
        token@.drop_first()
    } else {
        token@
    };
    assert(body =~= token@.subrange(start as int, len as int));
    if start == len {
        return None;
    }
    let mut value: u32 = 0;
    let mut i: usize = start;
    while i < len
        invariant
            start <= i <= len == token@.len(),
            body == token@.subrange(start as int, len as int),
            u8_text_value(token@) == (if body.len() > 0 && all_digits(body) && digits_value(body)
                <= 255 {
                Some(digits_value(body))
            } else {
                None
            }),
            all_digits(token@.subrange(start as int, i as int)),
            value as int == if digits_value(token@.subrange(start as int, i as int)) > 256 {
                256
            } else {
                digits_value(token@.subrange(start as int, i as int))
            },
        decreases len - i,
    {
        let c = token[i];
        if c < '0' || c > '9' {
            assert(body[i - start] == c);
            assert(!is_digit(body[i - start]));
            assert(!all_digits(body));
            assert(u8_text_value(token@) is None);
            return None;
        }
        let digit = (c as u32) - ('0' as u32);
        let ghost prev = token@.subrange(start as int, i as int);
        let ghost next = token@.subrange(start as int, i + 1);
        assert(next.drop_last() =~= prev);
        assert(digits_value(next) == digits_value(prev) * 10 + digit);
        value = value * 10 + digit;
        if value > 256 {
            value = 256;
        }
        i += 1;
        assert(all_digits(next)) by {
            assert forall|j: int| 0 <= j < next.len() implies is_digit(#[trigger] next[j]) by {
                if j < prev.len() {
                    assert(next[j] == prev[j]);
                }
            }
        }
    }
    if value == 0 || value > 255 {
        None
    } else if value > 5 {
        Some(5)
    } else {
        Some(value as u8)
    }
}

/// Name and priority written as `text` (see `name_and_priority`).
pub fn split_name_and_priority(text: &Vec<char>) -> (r: (String, u8))
    ensures
        r.0@ == name_and_priority(text@).0,
        r.1 == name_and_priority(text@).1,
{
    let len = text.len();
    proof {
        lemma_last_space_bounds(text@);
    }
    match find_last_space(text) {
        Some(i) => {
            let token = copy_range(text, i + 1, len);
            match parse_priority(&token) {
                Some(p) => {
                    let name = copy_range(text, 0, i);
                    (string_from_chars(&name), p)
                },
                None => (string_from_chars(text), 1),
            }
        },
        None => (string_from_chars(text), 1),
    }
}

/// Name and priority of a new task typed as `buffer` (see `entry_fields`).
pub fn split_entry(buffer: &Vec<char>) -> (r: (String, u8))
    ensures
        r.0@ == entry_fields(buffer@).0,
        r.1 == entry_fields(buffer@).1,
{
    let text = trim_chars(buffer);
    split_name_and_priority(&text)
}

} // verus!
