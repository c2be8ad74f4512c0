//! Text: numbers and ids in words, decoding of process output, and removal of line ends.

use uuid::Uuid;
use vstd::arithmetic::div_mod::{
    lemma_basic_div, lemma_div_denominator, lemma_fundamental_div_mod,
};
use vstd::arithmetic::power2::{
    lemma2_to64, lemma2_to64_rest, lemma_pow2_adds, lemma_pow2_pos, pow2,
};
use vstd::prelude::*;
use vstd::utf8::{
    decode_first_scalar, decode_utf8, length_of_first_scalar, pop_first_scalar, valid_first_scalar,
    valid_utf8, valid_utf8_concat,
};

verus! {

/// The digit for a value below sixteen, in lower case.
pub open spec fn digit(value: nat) -> char {
    if value < 10 {
        ('0' as nat + value) as char
    } else {
        ('a' as nat + (value - 10)) as char
    }
}

/// `n` in decimal, without leading zeros.
pub open spec fn decimal(n: nat) -> Seq<char>
    decreases n,
{
    if n < 10 {
        seq![digit(n)]
    } else {
        decimal(n / 10).push(digit(n % 10))
    }
}

/// `String::push` appends the character.
pub assume_specification[ String::push ](s: &mut String, c: char)
    ensures
        final(s)@ == old(s)@.push(c),
;

/// Writes `n` in decimal.
pub fn decimal_text(n: u64) -> (text: String)
    ensures
        text@ == decimal(n as nat),
    decreases n,
{
    let low: u8 = (n % 10) as u8;
    let c: char = (48 + low) as char;
    if n < 10 {
        let mut text = String::new();
        text.push(c);
        assert(text@ == seq![digit(n as nat)]);
        text
    } else {
        let mut text = decimal_text(n / 10);
        text.push(c);
        text
    }
}

/// The hexadecimal digits `from` up to `to` of the thirty-two digits of `id`, the most significant
/// one first.
pub open spec fn id_digits(id: u128, from: nat, to: nat) -> Seq<char> {
    Seq::new(
        (to - from) as nat,
        |i: int| digit((id as nat / pow2((4 * (31 - from - i)) as nat)) % 16),
    )
}

/// `id` as a UUID in the hyphenated form: lower-case digits in groups of 8, 4, 4, 4 and 12.
pub open spec fn uuid_form(id: u128) -> Seq<char> {
    id_digits(id, 0, 8) + seq!['-'] + id_digits(id, 8, 12) + seq!['-'] + id_digits(id, 12, 16)
        + seq!['-'] + id_digits(id, 16, 20) + seq!['-'] + id_digits(id, 20, 32)
}

/// `Uuid`'s `to_string`, on the UUID with the given 128-bit value: the hyphenated form.
#[verifier::external_body]
pub(crate) fn uuid_text(id: u128) -> (text: String)
    ensures
        text@ == uuid_form(id),
{
    Uuid::from_u128(id).to_string()
}

/// What `std`'s UTF-8 decoder says of bytes that are not valid UTF-8.
pub uninterp spec fn utf8_error(bytes: Seq<u8>) -> Seq<char>;

/// The text that `String::from_utf8_lossy` makes of bytes.
pub uninterp spec fn lossy_text(bytes: Seq<u8>) -> Seq<char>;

/// `String::from_utf8`: the decoded text where the bytes are valid UTF-8. Otherwise the bytes come
/// back, with the decoder's message, which depends on the bytes alone.
#[verifier::external_body]
pub(crate) fn from_utf8(raw: Vec<u8>) -> (text: Result<String, (String, Vec<u8>)>)
    ensures
        match text {
            Ok(s) => valid_utf8(raw@) && s@ == decode_utf8(raw@),
            Err((message, bytes)) => !valid_utf8(raw@) && message@ == utf8_error(raw@) && bytes@
                == raw@,
        },
{
    String::from_utf8(raw).map_err(|err| (err.utf8_error().to_string(), err.into_bytes()))
}

/// `String::from_utf8_lossy`: a text that depends on the bytes alone.
#[verifier::external_body]
pub(crate) fn from_utf8_lossy(raw: &Vec<u8>) -> (text: String)
    ensures
        text@ == lossy_text(raw@),
{
    String::from_utf8_lossy(raw).into_owned()
}

/// Whether the character at `i` belongs to a line end: a line feed, or a carriage return right
/// before one.
pub open spec fn in_line_end(text: Seq<char>, i: int) -> bool {
    ||| text[i] == '\n'
    ||| text[i] == '\r' && i + 1 < text.len() && text[i + 1] == '\n'
}

/// What is left of the first `n` characters of a text once its line ends are taken out.
pub open spec fn lines_joined_upto(text: Seq<char>, n: nat) -> Seq<char>
    decreases n,
{
    if n == 0 {
        Seq::empty()
    } else if in_line_end(text, n - 1) {
        lines_joined_upto(text, (n - 1) as nat)
    } else {
        lines_joined_upto(text, (n - 1) as nat).push(text[n - 1])
    }
}

/// The lines of a text, one right after the other.
pub open spec fn lines_joined(text: Seq<char>) -> Seq<char> {
    lines_joined_upto(text, text.len())
}

/// Joins the lines of a text without anything between them.
pub fn join_lines(text: &str) -> (joined: String)
    ensures
        joined@ == lines_joined(text@),
{
    let mut joined = String::new();
    let mut held_return = false;
    for c in iter: text.chars()
        invariant
            iter.seq() == text@,
            held_return == (iter.index() > 0 && text@[iter.index() - 1] == '\r'),
            !held_return ==> joined@ == lines_joined_upto(text@, iter.index() as nat),
            held_return ==> joined@ == lines_joined_upto(text@, (iter.index() - 1) as nat),
    {
        proof {
            reveal_with_fuel(lines_joined_upto, 3);
        }
        if held_return && c != '\n' {
            joined.push('\r');
        }
        held_return = c == '\r';
        if c != '\r' && c != '\n' {
            joined.push(c);
        }
    }
    if held_return {
        joined.push('\r');
    }
    joined
}

/// What is left of a text once its lines are joined holds no line feed.
pub proof fn law_joined_text_is_one_line(text: Seq<char>)
    ensures
        !lines_joined(text).contains('\n'),
{
    lemma_no_line_feed(text, text.len());
}

proof fn lemma_no_line_feed(text: Seq<char>, n: nat)
    requires
        n <= text.len(),
    ensures
        forall|i: int|
            0 <= i < lines_joined_upto(text, n).len() ==> (#[trigger] lines_joined_upto(text, n)[i])
                != '\n',
    decreases n,
{
    if n > 0 {
        lemma_no_line_feed(text, (n - 1) as nat);
        let before = lines_joined_upto(text, (n - 1) as nat);
        let all = lines_joined_upto(text, n);
        assert forall|i: int| 0 <= i < all.len() implies (#[trigger] all[i]) != '\n' by {
            if i < before.len() {
                assert(all[i] == before[i]);
            }
        }
    }
}

/// A text that holds no line feed is left as it is.
pub proof fn law_one_line_is_kept(text: Seq<char>)
    requires
        !text.contains('\n'),
    ensures
        lines_joined(text) == text,
{
    assert(text.take(text.len() as int) == text);
    lemma_one_line(text, text.len());
}

proof fn lemma_one_line(text: Seq<char>, n: nat)
    requires
        !text.contains('\n'),
        n <= text.len(),
    ensures
        lines_joined_upto(text, n) == text.take(n as int),
    decreases n,
{
    if n > 0 {
        lemma_one_line(text, (n - 1) as nat);
        assert(text.contains(text[n - 1]));
        if n < text.len() {
            assert(text.contains(text[n as int]));
        }
        assert(text.take(n - 1).push(text[n - 1]) =~= text.take(n as int));
    }
}

proof fn lemma_decode_concat(a: Seq<u8>, b: Seq<u8>)
    requires
        valid_utf8(a),
        valid_utf8(b),
    ensures
        valid_utf8(a + b),
        decode_utf8(a + b) == decode_utf8(a) + decode_utf8(b),
    decreases a.len(),
{
    valid_utf8_concat(a, b);
    if a.len() == 0 {
        assert(a + b =~= b);
        assert(decode_utf8(a) + decode_utf8(b) =~= decode_utf8(b));
    } else {
        let rest = pop_first_scalar(a);
        lemma_decode_concat(rest, b);
        assert(pop_first_scalar(a + b) =~= rest + b);
        assert(decode_first_scalar(a + b) == decode_first_scalar(a));
        assert(decode_utf8(a + b) =~= decode_utf8(a) + decode_utf8(b));
    }
}

/// Output that is read piece by piece, each of them valid UTF-8, gives the same text as if it were
/// decoded in one go: nothing is lost, changed or reordered.
pub proof fn law_pieces_decode_like_the_whole(pieces: Seq<Seq<u8>>)
    requires
        forall|i: int| 0 <= i < pieces.len() ==> valid_utf8(#[trigger] pieces[i]),
    ensures
        valid_utf8(pieces.flatten()),
        decode_utf8(pieces.flatten()) == pieces.map_values(
            |piece: Seq<u8>| decode_utf8(piece),
        ).flatten(),
    decreases pieces.len(),
{
    let texts = pieces.map_values(|piece: Seq<u8>| decode_utf8(piece));
    if pieces.len() > 0 {
        let rest = pieces.drop_first();
        assert forall|i: int| 0 <= i < rest.len() implies valid_utf8(#[trigger] rest[i]) by {
            assert(valid_utf8(pieces[i + 1]));
        }
        law_pieces_decode_like_the_whole(rest);
        assert(valid_utf8(pieces[0]));
        lemma_decode_concat(pieces.first(), rest.flatten());
        assert(texts.drop_first() =~= rest.map_values(|piece: Seq<u8>| decode_utf8(piece)));
    }
}

/// A valid text falls into two valid ones right after a line feed.
proof fn lemma_split_after_line_feed(line: Seq<u8>, rest: Seq<u8>)
    requires
        line.len() > 0,
        line.last() == 10,
        valid_utf8(line + rest),
    ensures
        valid_utf8(line),
        valid_utf8(rest),
    decreases line.len(),
{
    let all = line + rest;
    let first = length_of_first_scalar(all);
    assert(all[line.len() - 1] == 10);
    let left = line.skip(first);
    assert(decode_first_scalar(line) == decode_first_scalar(all));
    assert(valid_first_scalar(line));
    assert(pop_first_scalar(line) =~= left);
    if first == line.len() {
        assert(pop_first_scalar(all) =~= rest);
        assert(valid_utf8(left));
    } else {
        assert(pop_first_scalar(all) =~= left + rest);
        lemma_split_after_line_feed(left, rest);
    }
}

/// Output that is valid UTF-8 as a whole can be read line by line: where every piece but the last one
/// ends in a line feed, each piece is valid, and the texts of the pieces make up the text of the whole.
pub proof fn law_lines_of_valid_output_are_valid(pieces: Seq<Seq<u8>>)
    requires
        valid_utf8(pieces.flatten()),
        forall|i: int|
            0 <= i < pieces.len() - 1 ==> (#[trigger] pieces[i]).len() > 0 && pieces[i].last() == 10,
    ensures
        forall|i: int| 0 <= i < pieces.len() ==> valid_utf8(#[trigger] pieces[i]),
        decode_utf8(pieces.flatten()) == pieces.map_values(
            |piece: Seq<u8>| decode_utf8(piece),
        ).flatten(),
    decreases pieces.len(),
{
    if pieces.len() > 0 {
        let rest = pieces.drop_first();
        if pieces.len() == 1 {
            assert(rest.flatten() =~= Seq::<u8>::empty());
            assert(pieces.flatten() =~= pieces[0]);
        } else {
            assert(pieces[0].last() == 10);
            lemma_split_after_line_feed(pieces[0], rest.flatten());
            assert forall|i: int| 0 <= i < rest.len() - 1 implies (#[trigger] rest[i]).len() > 0
                && rest[i].last() == 10 by {
                assert(rest[i] == pieces[i + 1]);
            }
            law_lines_of_valid_output_are_valid(rest);
            assert forall|i: int| 0 <= i < pieces.len() implies valid_utf8(
                #[trigger] pieces[i],
            ) by {
                if i > 0 {
                    assert(valid_utf8(rest[i - 1]));
                }
            }
        }
    }
    law_pieces_decode_like_the_whole(pieces);
}

/// The number that decimal digits stand for.
pub open spec fn decimal_value(text: Seq<char>) -> int
    decreases text.len(),
{
    if text.len() == 0 {
        0
    } else {
        decimal_value(text.drop_last()) * 10 + (text.last() as int - 48)
    }
}

/// A number that is written in decimal can be read back: the text consists of the digits from zero to
/// nine, has no leading zero unless it is one digit long, and stands for the number.
pub proof fn law_decimal_reads_back(n: u64, text: String)
    requires
        call_ensures(decimal_text, (n,), text),
    ensures
        text@.len() > 0,
        decimal_value(text@) == n,
        forall|i: int| 0 <= i < text@.len() ==> '0' <= #[trigger] text@[i] <= '9',
        text@.len() > 1 ==> text@[0] != '0',
        text@ == decimal(n as nat),
{
    lemma_decimal_reads_back(n as nat);
}

proof fn lemma_decimal_reads_back(n: nat)
    ensures
        decimal(n).len() > 0,
        decimal_value(decimal(n)) == n,
        forall|i: int| 0 <= i < decimal(n).len() ==> '0' <= #[trigger] decimal(n)[i] <= '9',
        decimal(n).len() > 1 ==> decimal(n)[0] != '0',
        n > 0 ==> decimal(n)[0] != '0',
    decreases n,
{
    reveal_with_fuel(decimal_value, 2);
    if n < 10 {
        assert(decimal(n).drop_last() =~= Seq::<char>::empty());
    } else {
        lemma_decimal_reads_back(n / 10);
        let head = decimal(n / 10);
        assert(decimal(n).drop_last() =~= head);
        assert forall|i: int| 0 <= i < decimal(n).len() implies '0' <= #[trigger] decimal(n)[i]
            <= '9' by {
            if i < head.len() {
                assert(decimal(n)[i] == head[i]);
            }
        }
        assert(decimal(n)[0] == head[0]);
    }
}

/// The value of a hexadecimal digit in lower case.
pub open spec fn digit_value(c: char) -> int {
    if '0' <= c <= '9' {
        c as int - 48
    } else {
        c as int - 87
    }
}

/// The number that hexadecimal digits stand for. Hyphens are passed over.
pub open spec fn hex_value(text: Seq<char>) -> int
    decreases text.len(),
{
    if text.len() == 0 {
        0
    } else if text.last() == '-' {
        hex_value(text.drop_last())
    } else {
        hex_value(text.drop_last()) * 16 + digit_value(text.last())
    }
}

/// What the first `k` of the thirty-two digits of `id` stand for.
spec fn leading(id: u128, k: nat) -> nat {
    id as nat / pow2((4 * (32 - k)) as nat)
}

proof fn lemma_next_digit(id: u128, k: nat)
    requires
        k < 32,
    ensures
        leading(id, k + 1) == 16 * leading(id, k) + leading(id, k + 1) % 16,
{
    let low = (4 * (31 - k)) as nat;
    assert((4 * (32 - (k + 1))) as nat == low && (4 * (32 - k)) as nat == low + 4);
    lemma_pow2_pos(low);
    lemma_pow2_adds(low, 4);
    lemma2_to64();
    lemma_div_denominator(id as int, pow2(low) as int, 16);
    lemma_fundamental_div_mod(id as int / pow2(low) as int, 16);
}

proof fn lemma_digits_read_back(before: Seq<char>, id: u128, from: nat, to: nat)
    requires
        from <= to <= 32,
        hex_value(before) == leading(id, from),
    ensures
        hex_value(before + id_digits(id, from, to)) == leading(id, to),
    decreases to - from,
{
    let all = before + id_digits(id, from, to);
    if from == to {
        assert(all =~= before);
    } else {
        let k = (to - 1) as nat;
        lemma_digits_read_back(before, id, from, k);
        assert(all.drop_last() =~= before + id_digits(id, from, k));
        let value = leading(id, to) % 16;
        assert((4 * (31 - from - (to - from - 1))) as nat == (4 * (32 - to)) as nat);
        assert(all.last() == digit(value));
        assert(digit_value(digit(value)) == value && digit(value) != '-');
        assert(hex_value(all) == hex_value(all.drop_last()) * 16 + value);
        lemma_next_digit(id, k);
    }
}

proof fn lemma_after_hyphen(text: Seq<char>)
    ensures
        hex_value(text + seq!['-']) == hex_value(text),
{
    assert((text + seq!['-']).drop_last() =~= text);
}

/// A UUID that is written out can be read back: thirty-six characters, hyphens at four fixed places,
/// hexadecimal digits in lower case everywhere else, and together they stand for the number.
pub proof fn law_uuid_reads_back(id: u128)
    ensures
        uuid_form(id).len() == 36,
        forall|i: int|
            0 <= i < 36 ==> (#[trigger] uuid_form(id)[i] == '-' <==> i == 8 || i == 13 || i == 18 || i
                == 23),
        forall|i: int|
            0 <= i < 36 ==> {
                let c = #[trigger] uuid_form(id)[i];
                c == '-' || '0' <= c <= '9' || 'a' <= c <= 'f'
            },
        hex_value(uuid_form(id)) == id,
{
    let a = id_digits(id, 0, 8);
    let b = a + seq!['-'] + id_digits(id, 8, 12);
    let c = b + seq!['-'] + id_digits(id, 12, 16);
    let d = c + seq!['-'] + id_digits(id, 16, 20);
    lemma2_to64();
    lemma_pow2_adds(64, 64);
    lemma2_to64_rest();
    lemma_basic_div(id as int, pow2(128) as int);
    assert(leading(id, 0) == 0);
    lemma_digits_read_back(Seq::empty(), id, 0, 8);
    assert(Seq::<char>::empty() + a =~= a);
    lemma_after_hyphen(a);
    lemma_digits_read_back(a + seq!['-'], id, 8, 12);
    lemma_after_hyphen(b);
    lemma_digits_read_back(b + seq!['-'], id, 12, 16);
    lemma_after_hyphen(c);
    lemma_digits_read_back(c + seq!['-'], id, 16, 20);
    lemma_after_hyphen(d);
    lemma_digits_read_back(d + seq!['-'], id, 20, 32);
    assert(leading(id, 32) == id as nat / 1);
}

/// Lines are joined one after the other: what comes after a line feed is joined as if it stood alone.
pub proof fn law_lines_join_one_by_one(first: Seq<char>, rest: Seq<char>)
    ensures
        lines_joined(first.push('\n') + rest) == lines_joined(first.push('\n')) + lines_joined(rest),
{
    lemma_join_rest(first.push('\n'), rest, rest.len());
    lemma_join_prefix(first.push('\n'), rest, first.len() + 1);
}

proof fn lemma_join_prefix(line: Seq<char>, rest: Seq<char>, n: nat)
    requires
        n <= line.len(),
        line.len() > 0,
        line.last() == '\n',
    ensures
        lines_joined_upto(line + rest, n) == lines_joined_upto(line, n),
    decreases n,
{
    if n > 0 {
        lemma_join_prefix(line, rest, (n - 1) as nat);
        assert(in_line_end(line + rest, n - 1) == in_line_end(line, n - 1));
    }
}

proof fn lemma_join_rest(line: Seq<char>, rest: Seq<char>, n: nat)
    requires
        n <= rest.len(),
        line.len() > 0,
        line.last() == '\n',
    ensures
        lines_joined_upto(line + rest, line.len() + n) == lines_joined_upto(line, line.len())
            + lines_joined_upto(rest, n),
    decreases n,
{
    if n == 0 {
        lemma_join_prefix(line, rest, line.len());
        assert(lines_joined_upto(line, line.len()) + lines_joined_upto(rest, n)
            =~= lines_joined_upto(line, line.len()));
    } else {
        lemma_join_rest(line, rest, (n - 1) as nat);
        assert(in_line_end(line + rest, line.len() + n - 1) == in_line_end(rest, n - 1));
        assert(lines_joined_upto(line + rest, line.len() + n) =~= lines_joined_upto(
            line,
            line.len(),
        ) + lines_joined_upto(rest, n));
    }
}

/// From a line with its end exactly the end is taken out: the line feed, and a carriage return right
/// before it. Carriage returns elsewhere stay.
pub proof fn law_only_the_line_end_is_taken_out(line: Seq<char>)
    requires
        !line.contains('\n'),
    ensures
        line.len() > 0 && line.last() == '\r' ==> lines_joined(line.push('\n'))
            == line.drop_last(),
        line.len() == 0 || line.last() != '\r' ==> lines_joined(line.push('\n')) == line,
{
    let text = line.push('\n');
    assert(in_line_end(text, line.len() as int));
    if line.len() > 0 {
        let kept = (line.len() - 1) as nat;
        lemma_kept_upto(line, kept);
        assert(line.contains(line[kept as int]));
        assert(line.take(kept as int) =~= line.drop_last());
        assert(line.drop_last().push(line.last()) =~= line);
        reveal_with_fuel(lines_joined_upto, 3);
    } else {
        reveal_with_fuel(lines_joined_upto, 2);
        assert(lines_joined(text) =~= line);
    }
}

proof fn lemma_kept_upto(line: Seq<char>, n: nat)
    requires
        !line.contains('\n'),
        n < line.len() || n == 0,
    ensures
        lines_joined_upto(line.push('\n'), n) == line.take(n as int),
    decreases n,
{
    if n > 0 {
        lemma_kept_upto(line, (n - 1) as nat);
        assert(line.contains(line[n - 1]));
        assert(line.contains(line[n as int]));
        assert(line.take(n - 1).push(line[n - 1]) =~= line.take(n as int));
    } else {
        assert(line.take(0) =~= Seq::<char>::empty());
    }
}

/// Joining gives one line, keeps a text that is one already, and takes two texts with a line end between
/// them one after the other.
pub proof fn law_joining_line_by_line(
    first: &str,
    second: &str,
    both: &str,
    first_joined: String,
    second_joined: String,
    joined: String,
)
    requires
        call_ensures(join_lines, (first,), first_joined),
        call_ensures(join_lines, (second,), second_joined),
        call_ensures(join_lines, (both,), joined),
        first@.len() > 0,
        first@.last() == '\n',
        both@ == first@ + second@,
    ensures
        joined@ == first_joined@ + second_joined@,
        !joined@.contains('\n'),
        !second@.contains('\n') ==> second_joined@ == second@,
        ({
            let line = first@.drop_last();
            !line.contains('\n') ==> first_joined@ == (if line.len() > 0 && line.last() == '\r' {
                line.drop_last()
            } else {
                line
            })
        }),
{
    let line = first@.drop_last();
    assert(line.push('\n') =~= first@);
    law_lines_join_one_by_one(line, second@);
    law_joined_text_is_one_line(both@);
    if !second@.contains('\n') {
        law_one_line_is_kept(second@);
    }
    if !line.contains('\n') {
        law_only_the_line_end_is_taken_out(line);
    }
}

} // verus!
