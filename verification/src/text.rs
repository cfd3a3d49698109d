use vstd::prelude::*;

verus! {

/// `needle` stands in `haystack` starting at position `start`.
pub open spec fn occurs_at(haystack: Seq<char>, needle: Seq<char>, start: int) -> bool {
    &&& 0 <= start
    &&& start + needle.len() <= haystack.len()
    &&& haystack.subrange(start, start + needle.len()) == needle
}

/// `needle` stands somewhere in `haystack`, as `str::contains` tests.
pub open spec fn contains_text(haystack: Seq<char>, needle: Seq<char>) -> bool {
    exists|start: int| occurs_at(haystack, needle, start)
}

/// The characters of `s`, one by one.
fn chars_of(s: &str) -> (chars: Vec<char>)
    ensures
        chars@ == s@,
{
    let n = s.unicode_len();
    let mut chars: Vec<char> = Vec::new();
    let mut i: usize = 0;
    while i < n
        invariant
            n == s@.len(),
            i <= n,
            chars@ == s@.subrange(0, i as int),
        decreases n - i,
    {
        chars.push(s.get_char(i));
        i = i + 1;
    }
    chars
}

/// Whether `needle` stands at position `start` of `haystack`.
fn matches_at(haystack: &Vec<char>, needle: &Vec<char>, start: usize) -> (found: bool)
    requires
        start + needle@.len() <= haystack@.len(),
    ensures
        found == occurs_at(haystack@, needle@, start as int),
{
    let hl = haystack.len();
    let mut j: usize = 0;
    while j < needle.len()
        invariant
            hl == haystack@.len(),
            start + needle@.len() <= haystack@.len(),
            j <= needle@.len(),
            forall|k: int| 0 <= k < j ==> haystack@[start + k] == needle@[k],
        decreases needle@.len() - j,
    {
        if haystack[start + j] != needle[j] {
            assert(haystack@.subrange(start as int, start + needle@.len())[j as int] != needle@[j as int]);
            return false;
        }
        j = j + 1;
    }
    assert(haystack@.subrange(start as int, start + needle@.len()) =~= needle@);
    true
}

/// Whether `needle` stands somewhere in `haystack`.
pub fn contains(haystack: &str, needle: &str) -> (found: bool)
    ensures
        found == contains_text(haystack@, needle@),
{
    let h = chars_of(haystack);
    let n = chars_of(needle);
    if n.len() > h.len() {
        assert forall|start: int| !occurs_at(haystack@, needle@, start) by {}
        return false;
    }
    let last = h.len() - n.len();
    let mut start: usize = 0;
    loop
        invariant_except_break
            h@ == haystack@,
            n@ == needle@,
            last == h@.len() - n@.len(),
            start <= last,
            forall|s: int| 0 <= s < start ==> !occurs_at(haystack@, needle@, s),
        ensures
            forall|s: int| 0 <= s <= last ==> !occurs_at(haystack@, needle@, s),
        decreases last - start,
    {
        if matches_at(&h, &n, start) {
            return true;
        }
        if start == last {
            break;
        }
        start = start + 1;
    }
    assert forall|s: int| !occurs_at(haystack@, needle@, s) by {
        if 0 <= s && s <= last {
        }
    }
    false
}

/// The lower-case hexadecimal digit for `n`, for `0 <= n < 16`.
pub open spec fn hex_digit(n: int) -> char {
    if n < 10 {
        (('0' as int) + n) as char
    } else {
        (('a' as int) + n - 10) as char
    }
}

/// The `k`-th of the 32 hexadecimal digits of `id`, the most significant first.
pub open spec fn uuid_nibble(id: u128, k: int) -> int {
    (id as int / vstd::arithmetic::power::pow(16, (31 - k) as nat)) % 16
}

/// Where position `i` of the 36-character hyphenated form takes its digit
/// from: the hyphens stand at 8, 13, 18 and 23.
pub open spec fn uuid_digit_index(i: int) -> int {
    if i < 8 {
        i
    } else if i < 13 {
        i - 1
    } else if i < 18 {
        i - 2
    } else if i < 23 {
        i - 3
    } else {
        i - 4
    }
}

/// The hyphenated lower-case text of the UUID whose 128 bits, read big-endian,
/// are `id`: 32 hexadecimal digits in groups of 8, 4, 4, 4 and 12.
pub open spec fn uuid_text(id: u128) -> Seq<char> {
    Seq::new(
        36,
        |i: int|
            if i == 8 || i == 13 || i == 18 || i == 23 {
                '-'
            } else {
                hex_digit(uuid_nibble(id, uuid_digit_index(i)))
            },
    )
}

/// The text of a UUID as the `uuid` crate writes it with `{}` or `{:?}`
/// (`Uuid::from_u128` reads the bits big-endian; `Display` and `Debug` both
/// write the hyphenated lower-case form). Trusted: `uuid::Uuid::to_string`.
#[verifier::external_body]
pub(crate) fn format_uuid(id: u128) -> (text: String)
    ensures
        text@ == uuid_text(id),
{
    uuid::Uuid::from_u128(id).to_string()
}

/// A needle placed anywhere in a text is found there.
pub proof fn lemma_found_wherever_it_stands(before: Seq<char>, needle: Seq<char>, after: Seq<char>)
    ensures
        contains_text(before + needle + after, needle),
{
    let h = before + needle + after;
    assert(h.subrange(before.len() as int, (before.len() + needle.len()) as int) =~= needle);
    assert(occurs_at(h, needle, before.len() as int));
}

/// A needle longer than the text is never found in it.
pub proof fn lemma_longer_needle_absent(haystack: Seq<char>, needle: Seq<char>)
    ensures
        needle.len() > haystack.len() ==> !contains_text(haystack, needle),
{
}

/// The text of a UUID is 36 characters: hyphens at 8, 13, 18 and 23, and a
/// lower-case hexadecimal digit everywhere else.
pub proof fn lemma_uuid_text_shape(id: u128)
    ensures
        uuid_text(id).len() == 36,
        forall|i: int| 0 <= i < 36 ==> {
            let c = #[trigger] uuid_text(id)[i];
            if i == 8 || i == 13 || i == 18 || i == 23 {
                c == '-'
            } else {
                ('0' <= c && c <= '9') || ('a' <= c && c <= 'f')
            }
        },
{
    assert forall|i: int| 0 <= i < 36 implies {
        let c = #[trigger] uuid_text(id)[i];
        if i == 8 || i == 13 || i == 18 || i == 23 {
            c == '-'
        } else {
            ('0' <= c && c <= '9') || ('a' <= c && c <= 'f')
        }
    } by {
        let n = uuid_nibble(id, uuid_digit_index(i));
        assert(0 <= n < 16);
    }
}

} // verus!
