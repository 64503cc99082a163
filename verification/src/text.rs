use vstd::prelude::*;
use vstd::string::StrSliceExecFns;

verus! {

/// The characters of `s`, in order, as a vector that can be indexed in
/// constant time.
pub fn chars_of(s: &str) -> (v: Vec<char>)
    ensures
        v@ == s@,
{
    let mut v: Vec<char> = Vec::new();
    for c in it: s.chars()
        invariant
            v@ == it.seq().take(it.index()),
            it.seq() == s@,
    {
        v.push(c);
    }
    v
}

/// The characters of each string of `v`.
pub open spec fn string_views(v: Seq<String>) -> Seq<Seq<char>> {
    v.map_values(|s: String| s@)
}

/// `words`, each with a blank in front, one behind the other.
pub open spec fn with_blanks(words: Seq<Seq<char>>) -> Seq<char>
    decreases words.len(),
{
    if words.len() == 0 {
        Seq::empty()
    } else {
        with_blanks(words.drop_last()) + seq![' '] + words.last()
    }
}

/// `char::to_string`: the string that holds the one character `c`.
#[verifier::external_body]
pub(crate) fn char_to_string(c: char) -> (r: String)
    ensures
        r@ == seq![c],
{
    c.to_string()
}

/// Whether two strings hold the same characters.
pub fn str_eq(a: &str, b: &str) -> (r: bool)
    ensures
        r == (a@ == b@),
{
    let x = a.to_owned();
    let y = b.to_owned();
    x == y
}


/// The character that writes the digit `d`.
pub open spec fn digit_char(d: int) -> char {
    if d == 0 {
        '0'
    } else if d == 1 {
        '1'
    } else if d == 2 {
        '2'
    } else if d == 3 {
        '3'
    } else if d == 4 {
        '4'
    } else if d == 5 {
        '5'
    } else if d == 6 {
        '6'
    } else if d == 7 {
        '7'
    } else if d == 8 {
        '8'
    } else {
        '9'
    }
}

/// The decimal numeral of `n`, without sign or leading zeros.
pub open spec fn decimal(n: nat) -> Seq<char>
    decreases n,
{
    if n < 10 {
        seq![digit_char(n as int)]
    } else {
        decimal(n / 10).push(digit_char((n % 10) as int))
    }
}

fn digit_str(d: usize) -> (r: &'static str)
    requires
        d < 10,
    ensures
        r@ == seq![digit_char(d as int)],
{
    proof {
        reveal_strlit("0");
        reveal_strlit("1");
        reveal_strlit("2");
        reveal_strlit("3");
        reveal_strlit("4");
        reveal_strlit("5");
        reveal_strlit("6");
        reveal_strlit("7");
        reveal_strlit("8");
        reveal_strlit("9");
    }
    let r = if d == 0 {
        "0"
    } else if d == 1 {
        "1"
    } else if d == 2 {
        "2"
    } else if d == 3 {
        "3"
    } else if d == 4 {
        "4"
    } else if d == 5 {
        "5"
    } else if d == 6 {
        "6"
    } else if d == 7 {
        "7"
    } else if d == 8 {
        "8"
    } else {
        "9"
    };
    assert(r@ =~= seq![digit_char(d as int)]);
    r
}

/// Writes `n` in decimal.
pub fn usize_to_string(n: usize) -> (r: String)
    ensures
        r@ == decimal(n as nat),
    decreases n,
{
    if n < 10 {
        String::from_str(digit_str(n))
    } else {
        let mut s = usize_to_string(n / 10);
        s.append(digit_str(n % 10));
        s
    }
}

/// Why a string is not a number of the wanted type.
#[derive(Clone, Copy, Debug, PartialEq, Eq, Structural)]
pub enum IntErrorKind {
    /// The string is empty.
    Empty,
    /// A character is not a digit, or a sign stands alone.
    InvalidDigit,
    /// The number is above the largest value of the type.
    PosOverflow,
    /// The number is below the smallest value of the type.
    NegOverflow,
}

impl IntErrorKind {
    /// The sentence that describes this failure.
    pub open spec fn spec_message(self) -> Seq<char> {
        match self {
            IntErrorKind::Empty => "cannot parse integer from empty string"@,
            IntErrorKind::InvalidDigit => "invalid digit found in string"@,
            IntErrorKind::PosOverflow => "number too large to fit in target type"@,
            IntErrorKind::NegOverflow => "number too small to fit in target type"@,
        }
    }

    /// The sentence that describes this failure.
    pub fn message(self) -> (r: &'static str)
        ensures
            r@ == self.spec_message(),
    {
        match self {
            IntErrorKind::Empty => "cannot parse integer from empty string",
            IntErrorKind::InvalidDigit => "invalid digit found in string",
            IntErrorKind::PosOverflow => "number too large to fit in target type",
            IntErrorKind::NegOverflow => "number too small to fit in target type",
        }
    }
}

/// Whether `c` is a decimal digit.
pub open spec fn is_digit(c: char) -> bool {
    '0' <= c && c <= '9'
}

/// The number that the digit `c` stands for.
pub open spec fn digit_value(c: char) -> int {
    c as int - '0' as int
}

/// Reads the digits of `s` from the left onto `acc`. The first character
/// that is no digit, or the first digit that takes the number above `limit`,
/// ends the reading with the error that belongs to it.
pub open spec fn accumulate(s: Seq<char>, acc: int, limit: int, overflow: IntErrorKind) -> Result<
    int,
    IntErrorKind,
>
    decreases s.len(),
{
    if s.len() == 0 {
        Ok(acc)
    } else if !is_digit(s[0]) {
        Err(IntErrorKind::InvalidDigit)
    } else if acc * 10 + digit_value(s[0]) > limit {
        Err(overflow)
    } else {
        accumulate(s.drop_first(), acc * 10 + digit_value(s[0]), limit, overflow)
    }
}

/// The unsigned number that `s` writes: digits after an optional `+`.
pub open spec fn parse_usize_spec(s: Seq<char>) -> Result<int, IntErrorKind> {
    if s.len() == 0 {
        Err(IntErrorKind::Empty)
    } else if s.len() == 1 && (s[0] == '+' || s[0] == '-') {
        Err(IntErrorKind::InvalidDigit)
    } else if s[0] == '+' {
        accumulate(s.drop_first(), 0, usize::MAX as int, IntErrorKind::PosOverflow)
    } else {
        accumulate(s, 0, usize::MAX as int, IntErrorKind::PosOverflow)
    }
}

/// The signed 32-bit number that `s` writes: digits after an optional `+`
/// or `-`.
pub open spec fn parse_i32_spec(s: Seq<char>) -> Result<int, IntErrorKind> {
    if s.len() == 0 {
        Err(IntErrorKind::Empty)
    } else if s.len() == 1 && (s[0] == '+' || s[0] == '-') {
        Err(IntErrorKind::InvalidDigit)
    } else if s[0] == '+' {
        accumulate(s.drop_first(), 0, i32::MAX as int, IntErrorKind::PosOverflow)
    } else if s[0] == '-' {
        match accumulate(s.drop_first(), 0, -(i32::MIN as int), IntErrorKind::NegOverflow) {
            Ok(m) => Ok(-m),
            Err(e) => Err(e),
        }
    } else {
        accumulate(s, 0, i32::MAX as int, IntErrorKind::PosOverflow)
    }
}

fn read_digits(chars: &Vec<char>, start: usize, limit: u64, overflow: IntErrorKind) -> (r: Result<
    u64,
    IntErrorKind,
>)
    requires
        start <= chars.len(),
    ensures
        match accumulate(chars@.skip(start as int), 0, limit as int, overflow) {
            Ok(v) => r == Ok::<u64, IntErrorKind>(v as u64) && 0 <= v <= limit,
            Err(e) => r == Err::<u64, IntErrorKind>(e),
        },
{
    let mut acc: u64 = 0;
    let mut i: usize = start;
    while i < chars.len()
        invariant
            start <= i <= chars.len(),
            acc <= limit,
            accumulate(chars@.skip(start as int), 0, limit as int, overflow) == accumulate(
                chars@.skip(i as int),
                acc as int,
                limit as int,
                overflow,
            ),
        decreases chars.len() - i,
    {
        let c = chars[i];
        assert(chars@.skip(i as int)[0] == c);
        assert(chars@.skip(i as int).drop_first() =~= chars@.skip(i as int + 1));
        if !('0' <= c && c <= '9') {
            return Err(IntErrorKind::InvalidDigit);
        }
        let d: u128 = (c as u32 - '0' as u32) as u128;
        let next: u128 = acc as u128 * 10 + d;
        if next > limit as u128 {
            return Err(overflow);
        }
        acc = next as u64;
        i = i + 1;
    }
    Ok(acc)
}

/// Reads an unsigned number.
pub fn parse_usize(s: &str) -> (r: Result<usize, IntErrorKind>)
    ensures
        match parse_usize_spec(s@) {
            Ok(v) => r == Ok::<usize, IntErrorKind>(v as usize) && 0 <= v <= usize::MAX,
            Err(e) => r == Err::<usize, IntErrorKind>(e),
        },
{
    let chars = chars_of(s);
    if chars.len() == 0 {
        return Err(IntErrorKind::Empty);
    }
    let first = chars[0];
    if chars.len() == 1 && (first == '+' || first == '-') {
        return Err(IntErrorKind::InvalidDigit);
    }
    let start: usize = if first == '+' {
        1
    } else {
        0
    };
    assert(chars@.skip(0) =~= chars@);
    assert(chars@.skip(1) =~= chars@.drop_first());
    match read_digits(&chars, start, usize::MAX as u64, IntErrorKind::PosOverflow) {
        Ok(v) => Ok(v as usize),
        Err(e) => Err(e),
    }
}

/// Reads a signed 32-bit number.
pub fn parse_i32(s: &str) -> (r: Result<i32, IntErrorKind>)
    ensures
        match parse_i32_spec(s@) {
            Ok(v) => r == Ok::<i32, IntErrorKind>(v as i32) && i32::MIN <= v <= i32::MAX,
            Err(e) => r == Err::<i32, IntErrorKind>(e),
        },
{
    let chars = chars_of(s);
    if chars.len() == 0 {
        return Err(IntErrorKind::Empty);
    }
    let first = chars[0];
    if chars.len() == 1 && (first == '+' || first == '-') {
        return Err(IntErrorKind::InvalidDigit);
    }
    assert(chars@.skip(0) =~= chars@);
    assert(chars@.skip(1) =~= chars@.drop_first());
    if first == '-' {
        match read_digits(&chars, 1, 2147483648, IntErrorKind::NegOverflow) {
            Ok(m) => Ok((-(m as i64)) as i32),
            Err(e) => Err(e),
        }
    } else {
        let start: usize = if first == '+' {
            1
        } else {
            0
        };
        match read_digits(&chars, start, 2147483647, IntErrorKind::PosOverflow) {
            Ok(v) => Ok(v as i32),
            Err(e) => Err(e),
        }
    }
}

/// The decimal numeral of `n`, with `-` in front where it is negative.
pub open spec fn signed_decimal(n: int) -> Seq<char> {
    if n < 0 {
        seq!['-'] + decimal((-n) as nat)
    } else {
        decimal(n as nat)
    }
}

/// Writes `n` in decimal.
pub fn i32_to_string(n: i32) -> (r: String)
    ensures
        r@ == signed_decimal(n as int),
{
    if n < 0 {
        proof {
            reveal_strlit("-");
        }
        let magnitude: usize = (-(n as i64)) as usize;
        let s = String::from_str("-").concat(usize_to_string(magnitude).as_str());
        assert(s@ =~= seq!['-'] + decimal((-n) as nat));
        s
    } else {
        usize_to_string(n as usize)
    }
}

/// Whether the name `a` stands at or before `b` in the order of the
/// dictionary, character codes deciding.
pub open spec fn name_le(a: Seq<char>, b: Seq<char>) -> bool
    decreases a.len(),
{
    if a.len() == 0 {
        true
    } else if b.len() == 0 {
        false
    } else if a[0] != b[0] {
        a[0] < b[0]
    } else {
        name_le(a.drop_first(), b.drop_first())
    }
}

/// Whether the name `a` stands at or before `b` in the order of the
/// dictionary.
pub fn compare_names(a: &str, b: &str) -> (r: bool)
    ensures
        r == name_le(a@, b@),
{
    let x = chars_of(a);
    let y = chars_of(b);
    let mut i: usize = 0;
    assert(x@.skip(0) =~= x@);
    assert(y@.skip(0) =~= y@);
    while i < x.len() && i < y.len()
        invariant
            i <= x.len(),
            i <= y.len(),
            x@ == a@,
            y@ == b@,
            name_le(x@, y@) == name_le(x@.skip(i as int), y@.skip(i as int)),
        decreases x.len() - i,
    {
        assert(x@.skip(i as int)[0] == x@[i as int]);
        assert(y@.skip(i as int)[0] == y@[i as int]);
        assert(x@.skip(i as int).drop_first() =~= x@.skip(i + 1));
        assert(y@.skip(i as int).drop_first() =~= y@.skip(i + 1));
        let cx: char = x[i];
        let cy: char = y[i];
        if cx != cy {
            return cx < cy;
        }
        i = i + 1;
    }
    i == x.len()
}

/// Names are ordered: any two compare one way or the other, each stands at
/// or before itself, and the order carries from one pair to the next.
pub proof fn lemma_name_le_total_preorder(a: Seq<char>, b: Seq<char>, c: Seq<char>)
    ensures
        name_le(a, a),
        name_le(a, b) || name_le(b, a),
        name_le(a, b) && name_le(b, c) ==> name_le(a, c),
    decreases a.len(),
{
    if a.len() > 0 {
        lemma_name_le_total_preorder(a.drop_first(), a.drop_first(), a.drop_first());
        if b.len() > 0 {
            if c.len() > 0 {
                lemma_name_le_total_preorder(a.drop_first(), b.drop_first(), c.drop_first());
            } else {
                lemma_name_le_total_preorder(a.drop_first(), b.drop_first(), b.drop_first());
            }
        }
    }
}

/// Whether the lines of `s` stand in the order of the dictionary.
pub open spec fn lines_sorted(s: Seq<Seq<char>>) -> bool {
    forall|i: int, j: int| 0 <= i < j < s.len() ==> name_le(s[i], s[j])
}

/// `s` with the line `x` put behind the last line that stands at or before
/// it.
pub open spec fn insert_line(s: Seq<Seq<char>>, x: Seq<char>) -> Seq<Seq<char>>
    decreases s.len(),
{
    if s.len() == 0 {
        seq![x]
    } else if name_le(s.last(), x) {
        s.push(x)
    } else {
        insert_line(s.drop_last(), x).push(s.last())
    }
}

/// The lines of `s` in the order of the dictionary.
pub open spec fn sorted_lines(s: Seq<Seq<char>>) -> Seq<Seq<char>>
    decreases s.len(),
{
    if s.len() == 0 {
        Seq::empty()
    } else {
        insert_line(sorted_lines(s.drop_last()), s.last())
    }
}

proof fn lemma_insert_line_position(s: Seq<Seq<char>>, x: Seq<char>, at: int)
    requires
        0 <= at <= s.len(),
        at > 0 ==> name_le(s[at - 1], x),
        forall|k: int| at <= k < s.len() ==> !name_le(s[k], x),
    ensures
        insert_line(s, x) == s.insert(at, x),
    decreases s.len(),
{
    if s.len() == 0 {
        assert(s.insert(at, x) =~= seq![x]);
    } else if at == s.len() {
        assert(s.insert(at, x) =~= s.push(x));
    } else {
        lemma_insert_line_position(s.drop_last(), x, at);
        assert(s.insert(at, x) =~= s.drop_last().insert(at, x).push(s.last()));
    }
}

/// Putting a line into sorted lines keeps them sorted, and adds that line
/// and no other.
pub proof fn lemma_insert_line(s: Seq<Seq<char>>, x: Seq<char>)
    requires
        lines_sorted(s),
    ensures
        lines_sorted(insert_line(s, x)),
        insert_line(s, x).to_multiset() == s.to_multiset().insert(x),
        insert_line(s, x).len() == s.len() + 1,
    decreases s.len(),
{
    broadcast use vstd::seq_lib::group_to_multiset_ensures;

    let r = insert_line(s, x);
    if s.len() == 0 {
        assert(s =~= Seq::empty());
        assert(r =~= Seq::<Seq<char>>::empty().push(x));
    } else if name_le(s.last(), x) {
        assert forall|i: int, j: int| 0 <= i < j < r.len() implies name_le(r[i], r[j]) by {
            if j == s.len() && i < s.len() - 1 {
                lemma_name_le_total_preorder(s[i], s.last(), x);
            }
        }
    } else {
        let front = s.drop_last();
        let inner = insert_line(front, x);
        lemma_insert_line(front, x);
        lemma_name_le_total_preorder(x, s.last(), x);
        assert(s =~= front.push(s.last()));
        assert forall|i: int, j: int| 0 <= i < j < r.len() implies name_le(r[i], r[j]) by {
            if j == inner.len() {
                assert(inner.to_multiset().count(inner[i]) > 0);
                if inner[i] != x {
                    assert(front.to_multiset().count(inner[i]) > 0);
                    assert(front.contains(inner[i]));
                    let k = choose|k: int| 0 <= k < front.len() && front[k] == inner[i];
                    assert(name_le(s[k], s[s.len() - 1]));
                }
            }
        }
    }
}

/// Sorting lines yields the same lines, in the order of the dictionary.
pub proof fn lemma_sorted_lines(s: Seq<Seq<char>>)
    ensures
        lines_sorted(sorted_lines(s)),
        sorted_lines(s).to_multiset() == s.to_multiset(),
        sorted_lines(s).len() == s.len(),
    decreases s.len(),
{
    broadcast use vstd::seq_lib::group_to_multiset_ensures;

    if s.len() == 0 {
        assert(s =~= Seq::empty());
    } else {
        lemma_sorted_lines(s.drop_last());
        lemma_insert_line(sorted_lines(s.drop_last()), s.last());
        assert(s =~= s.drop_last().push(s.last()));
    }
}

/// Puts `lines` in the order of the dictionary.
pub fn sort_lines(lines: Vec<String>) -> (r: Vec<String>)
    ensures
        string_views(r@) == sorted_lines(string_views(lines@)),
        lines_sorted(string_views(r@)),
        string_views(r@).to_multiset() == string_views(lines@).to_multiset(),
{
    proof {
        lemma_sorted_lines(string_views(lines@));
    }
    let mut sorted: Vec<String> = Vec::new();
    let ghost all = string_views(lines@);
    for line in it: lines.into_iter()
        invariant
            it.seq() == lines@,
            all == string_views(lines@),
            string_views(sorted@) == sorted_lines(all.take(it.index() as int)),
    {
        let ghost done = string_views(sorted@);
        let mut at: usize = sorted.len();
        while at > 0 && !compare_names(sorted[at - 1].as_str(), line.as_str())
            invariant
                at <= sorted.len(),
                done == string_views(sorted@),
                forall|k: int| at <= k < done.len() ==> !name_le(done[k], line@),
            decreases at,
        {
            at = at - 1;
        }
        proof {
            lemma_insert_line_position(done, line@, at as int);
            let n = it.index() as int;
            assert(all.take(n + 1).drop_last() =~= all.take(n));
            assert(all.take(n + 1).last() == line@);
        }
        sorted.insert(at, line);
        assert(string_views(sorted@) =~= done.insert(at as int, line@));
    }
    assert(all.take(lines@.len() as int) =~= all);
    sorted
}

/// Whether `c` is white space.
pub open spec fn is_space(c: char) -> bool {
    let u = c as u32;
    ||| 0x09 <= u <= 0x0d
    ||| u == 0x20
    ||| u == 0x85
    ||| u == 0xa0
    ||| u == 0x1680
    ||| 0x2000 <= u <= 0x200a
    ||| u == 0x2028
    ||| u == 0x2029
    ||| u == 0x202f
    ||| u == 0x205f
    ||| u == 0x3000
}

/// The words of `s`: its longest runs of characters that are no white
/// space, in order. `word` holds the characters of the run that is open
/// where `s` begins.
pub open spec fn words_from(s: Seq<char>, word: Seq<char>) -> Seq<Seq<char>>
    decreases s.len(),
{
    if s.len() == 0 {
        if word.len() == 0 {
            Seq::empty()
        } else {
            seq![word]
        }
    } else if is_space(s[0]) {
        if word.len() == 0 {
            words_from(s.drop_first(), word)
        } else {
            seq![word] + words_from(s.drop_first(), Seq::empty())
        }
    } else {
        words_from(s.drop_first(), word.push(s[0]))
    }
}

/// The words of `s`: its longest runs of characters that are no white
/// space, in order.
pub open spec fn words_of(s: Seq<char>) -> Seq<Seq<char>> {
    words_from(s, Seq::empty())
}

fn is_space_char(c: char) -> (r: bool)
    ensures
        r == is_space(c),
{
    let u: u32 = c as u32;
    (0x09 <= u && u <= 0x0d) || u == 0x20 || u == 0x85 || u == 0xa0 || u == 0x1680 || (0x2000 <= u
        && u <= 0x200a) || u == 0x2028 || u == 0x2029 || u == 0x202f || u == 0x205f || u == 0x3000
}

/// Splits `s` at white space into its words.
pub fn split_whitespace(s: &str) -> (r: Vec<String>)
    ensures
        string_views(r@) == words_of(s@),
{
    let chars = chars_of(s);
    let mut words: Vec<String> = Vec::new();
    let mut start: usize = 0;
    let mut i: usize = 0;
    assert(chars@.skip(0) =~= chars@);
    assert(chars@.subrange(0, 0) =~= Seq::<char>::empty());
    assert(string_views(words@) =~= Seq::<Seq<char>>::empty());
    while i < chars.len()
        invariant
            start <= i <= chars.len(),
            chars@ == s@,
            words_of(s@) == string_views(words@) + words_from(
                chars@.skip(i as int),
                chars@.subrange(start as int, i as int),
            ),
        decreases chars.len() - i,
    {
        let c: char = chars[i];
        proof {
            assert(chars@.skip(i as int)[0] == c);
            assert(chars@.skip(i as int).drop_first() =~= chars@.skip(i + 1));
            assert(chars@.subrange(start as int, i as int).push(c) =~= chars@.subrange(
                start as int,
                i + 1,
            ));
            assert(chars@.subrange(i + 1, i + 1) =~= Seq::<char>::empty());
        }
        if is_space_char(c) {
            if i > start {
                let ghost before = words@;
                let word = s.substring_char(start, i).to_owned();
                words.push(word);
                proof {
                    assert(string_views(words@) =~= string_views(before).push(
                        chars@.subrange(start as int, i as int),
                    ));
                    assert(string_views(before) + (seq![chars@.subrange(start as int, i as int)]
                        + words_from(chars@.skip(i + 1), Seq::empty())) =~= string_views(words@)
                        + words_from(chars@.skip(i + 1), Seq::empty()));
                }
            } else {
                assert(chars@.subrange(start as int, i as int) =~= Seq::<char>::empty());
            }
            start = i + 1;
        }
        i = i + 1;
    }
    if i > start {
        let ghost before = words@;
        let word = s.substring_char(start, i).to_owned();
        words.push(word);
        proof {
            assert(string_views(words@) =~= string_views(before).push(
                chars@.subrange(start as int, i as int),
            ));
        }
    } else {
        assert(chars@.subrange(start as int, i as int) =~= Seq::<char>::empty());
        assert(string_views(words@) + Seq::<Seq<char>>::empty() =~= string_views(words@));
    }
    words
}

} // verus!
