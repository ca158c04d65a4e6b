//! Reading a duration written as `[[[d:]h:]m:]s[.ms]`.
//!
//! The text is cut at every colon. The last field holds the seconds, with
//! milliseconds after an optional dot; the fields before it, from right to
//! left, count minutes, hours and days. An empty text and a text of more
//! than four fields are refused before any field is read. The fields are
//! then read from the right, and the first that is no number, or with which
//! the duration grows beyond the longest one, decides the error.
//! [`parse_duration_spec`] says what each text stands for, and
//! [`parse_duration`] computes it.

use crate::duration::{max_nanos, Duration};
use crate::error::{Field, ParseError, Unit};
use crate::number::{
    all_digits, chars_of, decimal_value, is_digit, lemma_digits_are_read,
    lemma_read_number_fits, parse_number, parse_number_spec, NumberError,
};
use vstd::prelude::*;

verus! {

/// The pieces of `s` between the occurrences of `sep`, from left to right.
/// A text without `sep` is one piece, the empty text included.
pub open spec fn split(s: Seq<char>, sep: char) -> Seq<Seq<char>>
    decreases s.len(),
{
    if s.len() == 0 {
        seq![Seq::<char>::empty()]
    } else {
        let before = split(s.drop_last(), sep);
        if s.last() == sep {
            before.push(Seq::<char>::empty())
        } else {
            before.update(before.len() - 1, before.last().push(s.last()))
        }
    }
}

/// The pieces of `pieces` put together again, with `sep` between neighbours.
pub open spec fn join(pieces: Seq<Seq<char>>, sep: char) -> Seq<char>
    decreases pieces.len(),
{
    if pieces.len() == 0 {
        Seq::<char>::empty()
    } else if pieces.len() == 1 {
        pieces[0]
    } else {
        join(pieces.drop_last(), sep).push(sep) + pieces.last()
    }
}

/// The texts that a vector of fields holds.
pub open spec fn texts(fields: Seq<Vec<char>>) -> Seq<Seq<char>> {
    Seq::new(fields.len(), |i: int| fields[i]@)
}

/// What the last field of a duration text stands for, in nanoseconds: whole
/// seconds, and milliseconds after a dot.
pub open spec fn seconds_field_spec(field: Seq<char>) -> Result<nat, ParseError> {
    let pieces = split(field, '.');
    if pieces.len() > 2 {
        Err(ParseError::TooManyFractionParts)
    } else {
        match parse_number_spec(pieces[0]) {
            Err(cause) => Err(
                ParseError::InvalidNumber { field: Field::Whole(Unit::Seconds), cause },
            ),
            Ok(seconds) => if pieces.len() == 1 {
                Ok(seconds * 1_000_000_000)
            } else {
                match parse_number_spec(pieces[1]) {
                    Err(cause) => Err(
                        ParseError::InvalidNumber { field: Field::Milliseconds, cause },
                    ),
                    Ok(millis) => {
                        let total = seconds * 1_000_000_000 + millis * 1_000_000;
                        if total > max_nanos() {
                            Err(ParseError::Overflow { unit: Unit::Seconds })
                        } else {
                            Ok(total)
                        }
                    },
                }
            },
        }
    }
}

/// What `total` nanoseconds become once the number in `field`, counted in
/// `unit`, is added.
pub open spec fn add_unit_spec(total: nat, unit: Unit, field: Seq<char>) -> Result<
    nat,
    ParseError,
> {
    match parse_number_spec(field) {
        Err(NumberError::PosOverflow) => Err(ParseError::Overflow { unit }),
        Err(cause) => Err(ParseError::InvalidNumber { field: Field::Whole(unit), cause }),
        Ok(value) => {
            let sum = total + value * unit.seconds_spec() * 1_000_000_000;
            if sum > max_nanos() {
                Err(ParseError::Overflow { unit })
            } else {
                Ok(sum)
            }
        },
    }
}

/// What the last `count` fields stand for together, read from the right: the
/// seconds field first, then one unit after the other. The first field that
/// fails decides the error.
pub open spec fn parse_fields(fields: Seq<Seq<char>>, count: nat) -> Result<nat, ParseError>
    decreases count,
{
    if count <= 1 {
        seconds_field_spec(fields.last())
    } else {
        match parse_fields(fields, (count - 1) as nat) {
            Err(e) => Err(e),
            Ok(total) => match Unit::at_spec((count - 1) as nat) {
                Err(e) => Err(e),
                Ok(unit) => add_unit_spec(total, unit, fields[fields.len() - count]),
            },
        }
    }
}

/// The duration that `s` stands for, in nanoseconds, or why it stands for none.
pub open spec fn parse_duration_spec(s: Seq<char>) -> Result<nat, ParseError> {
    let fields = split(s, ':');
    if s.len() == 0 {
        Err(ParseError::MissingParts)
    } else if fields.len() > 4 {
        Err(ParseError::TooManyParts)
    } else {
        parse_fields(fields, fields.len())
    }
}

/// A text always has at least one piece.
pub proof fn lemma_split_nonempty(s: Seq<char>, sep: char)
    ensures
        split(s, sep).len() >= 1,
    decreases s.len(),
{
    if s.len() > 0 {
        lemma_split_nonempty(s.drop_last(), sep);
    }
}

/// A text without the separator is one piece.
pub proof fn lemma_split_one_piece(s: Seq<char>, sep: char)
    requires
        forall|i: int| 0 <= i < s.len() ==> s[i] != sep,
    ensures
        split(s, sep) == seq![s],
    decreases s.len(),
{
    if s.len() == 0 {
        assert(s =~= Seq::<char>::empty());
    } else {
        let shorter = s.drop_last();
        assert forall|i: int| 0 <= i < shorter.len() implies shorter[i] != sep by {
            assert(shorter[i] == s[i]);
        }
        lemma_split_one_piece(shorter, sep);
        assert(s.last() == s[s.len() - 1]);
        assert(shorter.push(s.last()) =~= s);
        assert(seq![shorter].update(0, s) =~= seq![s]);
    }
}

/// The pieces of two texts with a separator between them are the pieces of
/// the first followed by the pieces of the second.
pub proof fn lemma_split_at_separator(left: Seq<char>, right: Seq<char>, sep: char)
    ensures
        split(left.push(sep) + right, sep) == split(left, sep) + split(right, sep),
    decreases right.len(),
{
    let whole = left.push(sep) + right;
    lemma_split_nonempty(right, sep);
    if right.len() == 0 {
        assert(whole =~= left.push(sep));
        assert(whole.drop_last() =~= left);
        assert(split(whole, sep) =~= split(left, sep) + split(right, sep));
    } else {
        lemma_split_at_separator(left, right.drop_last(), sep);
        lemma_split_nonempty(right.drop_last(), sep);
        assert(whole.drop_last() =~= left.push(sep) + right.drop_last());
        assert(whole.last() == right.last());
        assert(split(whole, sep) =~= split(left, sep) + split(right, sep));
    }
}

/// Cutting a text leaves no separator inside a piece, and putting the
/// pieces together again gives the text back.
pub proof fn lemma_split_join(s: Seq<char>, sep: char)
    ensures
        join(split(s, sep), sep) == s,
        forall|i: int, j: int|
            #![trigger split(s, sep)[i][j]]
            0 <= i < split(s, sep).len() && 0 <= j < split(s, sep)[i].len() ==> split(
                s,
                sep,
            )[i][j] != sep,
    decreases s.len(),
{
    let pieces = split(s, sep);
    if s.len() == 0 {
        assert(join(pieces, sep) =~= s);
    } else {
        let before = split(s.drop_last(), sep);
        lemma_split_nonempty(s.drop_last(), sep);
        lemma_split_join(s.drop_last(), sep);
        if s.last() == sep {
            assert(pieces.drop_last() =~= before);
            assert(join(pieces, sep) =~= s.drop_last().push(sep));
        } else {
            let grown = before.last().push(s.last());
            if before.len() == 1 {
                assert(join(pieces, sep) =~= before[0].push(s.last()));
            } else {
                assert(pieces.drop_last() =~= before.drop_last());
                assert(join(pieces, sep) =~= join(before, sep).push(s.last()));
            }
            assert forall|i: int, j: int|
                0 <= i < pieces.len() && 0 <= j < pieces[i].len() implies #[trigger] pieces[i][j]
                != sep by {
                if i < pieces.len() - 1 {
                    assert(pieces[i][j] == before[i][j]);
                } else if j < grown.len() - 1 {
                    assert(pieces[i][j] == before[i][j]);
                }
            }
        }
        assert(s.drop_last().push(s.last()) =~= s);
    }
}

/// Pieces without the separator, put together and cut again, are the pieces
/// that one started with.
pub proof fn lemma_join_split(pieces: Seq<Seq<char>>, sep: char)
    requires
        pieces.len() >= 1,
        forall|i: int, j: int|
            #![trigger pieces[i][j]]
            0 <= i < pieces.len() && 0 <= j < pieces[i].len() ==> pieces[i][j] != sep,
    ensures
        split(join(pieces, sep), sep) == pieces,
    decreases pieces.len(),
{
    let last = pieces.last();
    assert forall|j: int| 0 <= j < last.len() implies last[j] != sep by {
        assert(last[j] == pieces[pieces.len() - 1][j]);
    }
    lemma_split_one_piece(last, sep);
    if pieces.len() == 1 {
        assert(pieces =~= seq![last]);
    } else {
        let front = pieces.drop_last();
        assert forall|i: int, j: int| 0 <= i < front.len() && 0 <= j < front[i].len() implies
            #[trigger] front[i][j] != sep by {
            assert(front[i][j] == pieces[i][j]);
        }
        lemma_join_split(front, sep);
        lemma_split_at_separator(join(front, sep), last, sep);
        assert(front + seq![last] =~= pieces);
    }
}

/// Whether `text` is a run of one or more digits whose number fits in 64 bits.
pub open spec fn is_number_text(text: Seq<char>) -> bool {
    text.len() >= 1 && all_digits(text) && decimal_value(text) <= u64::MAX
}

/// The number in the field at `position`, counted from the right with the
/// seconds at zero; zero where there is no such field.
pub open spec fn value_at(fields: Seq<Seq<char>>, position: nat) -> nat {
    if position < fields.len() {
        decimal_value(fields[fields.len() - 1 - position])
    } else {
        0
    }
}

/// The seconds that the fields before the last count together, where they
/// are runs of digits: minutes, hours and days from the right.
pub open spec fn unit_seconds(fields: Seq<Seq<char>>) -> nat {
    value_at(fields, 1) * 60 + value_at(fields, 2) * 3600 + value_at(fields, 3) * 86400
}

/// The seconds that up to four fields of digits count together: seconds,
/// minutes, hours and days from the right.
pub open spec fn positional_seconds(fields: Seq<Seq<char>>) -> nat {
    value_at(fields, 0) + unit_seconds(fields)
}

/// Where the last of one to four fields stands for `base` nanoseconds and
/// the fields before it are runs of digits, the fields stand for `base` and
/// the minutes, hours and days that those runs count, where that is no
/// longer than the longest duration.
proof fn lemma_units_add_up(fields: Seq<Seq<char>>, base: nat)
    requires
        1 <= fields.len() <= 4,
        seconds_field_spec(fields.last()) == Ok::<nat, ParseError>(base),
        forall|i: int| 0 <= i < fields.len() - 1 ==> is_number_text(#[trigger] fields[i]),
        base + unit_seconds(fields) * 1_000_000_000 <= max_nanos(),
    ensures
        parse_fields(fields, fields.len()) == Ok::<nat, ParseError>(
            base + unit_seconds(fields) * 1_000_000_000,
        ),
{
    assert(parse_fields(fields, 1) == Ok::<nat, ParseError>(base));
    if fields.len() >= 2 {
        let minutes = fields[fields.len() - 2];
        assert(is_number_text(minutes));
        lemma_digits_are_read(minutes);
        assert(parse_fields(fields, 2) == Ok::<nat, ParseError>(
            base + value_at(fields, 1) * 60 * 1_000_000_000,
        ));
    }
    if fields.len() >= 3 {
        let hours = fields[fields.len() - 3];
        assert(is_number_text(hours));
        lemma_digits_are_read(hours);
        assert(parse_fields(fields, 3) == Ok::<nat, ParseError>(
            base + (value_at(fields, 1) * 60 + value_at(fields, 2) * 3600) * 1_000_000_000,
        ));
    }
    if fields.len() >= 4 {
        let days = fields[fields.len() - 4];
        assert(is_number_text(days));
        lemma_digits_are_read(days);
        assert(parse_fields(fields, 4) == Ok::<nat, ParseError>(
            base + unit_seconds(fields) * 1_000_000_000,
        ));
    }
}

/// Fields of digits have no colon in them, and put together with colons
/// they make a text that is not empty and is cut into the same fields again.
proof fn lemma_fields_are_cut_again(fields: Seq<Seq<char>>)
    requires
        fields.len() >= 1,
        fields.last().len() >= 1,
        forall|i: int, j: int|
            #![trigger fields[i][j]]
            0 <= i < fields.len() && 0 <= j < fields[i].len() ==> is_digit(fields[i][j])
                || fields[i][j] == '.',
    ensures
        join(fields, ':').len() >= 1,
        split(join(fields, ':'), ':') == fields,
{
    lemma_join_split(fields, ':');
    if fields.len() > 1 {
        assert(join(fields, ':') == join(fields.drop_last(), ':').push(':') + fields.last());
    }
}

/// One to four runs of digits with colons between them stand for the
/// seconds, minutes, hours and days that the runs count from the right,
/// where that is no longer than the longest duration.
pub proof fn lemma_parse_digit_fields(fields: Seq<Seq<char>>)
    requires
        1 <= fields.len() <= 4,
        forall|i: int| 0 <= i < fields.len() ==> is_number_text(#[trigger] fields[i]),
        positional_seconds(fields) <= u64::MAX,
    ensures
        parse_duration_spec(join(fields, ':')) == Ok::<nat, ParseError>(
            positional_seconds(fields) * 1_000_000_000,
        ),
{
    let seconds = fields.last();
    assert(is_number_text(seconds));
    assert forall|i: int, j: int| 0 <= i < fields.len() && 0 <= j < fields[i].len() implies
        is_digit(#[trigger] fields[i][j]) || fields[i][j] == '.' by {
        assert(is_number_text(fields[i]));
    }
    lemma_fields_are_cut_again(fields);
    assert forall|j: int| 0 <= j < seconds.len() implies seconds[j] != '.' by {}
    lemma_split_one_piece(seconds, '.');
    lemma_digits_are_read(seconds);
    lemma_units_add_up(fields, value_at(fields, 0) * 1_000_000_000);
}

/// The same with milliseconds: where the last field is a run of digits, a
/// dot and another run of digits, the second run adds that many
/// milliseconds.
pub proof fn lemma_parse_digit_fields_with_millis(fields: Seq<Seq<char>>, millis: Seq<char>)
    requires
        1 <= fields.len() <= 4,
        forall|i: int| 0 <= i < fields.len() ==> is_number_text(#[trigger] fields[i]),
        is_number_text(millis),
        positional_seconds(fields) * 1_000_000_000 + decimal_value(millis) * 1_000_000
            <= max_nanos(),
    ensures
        parse_duration_spec(
            join(fields.update(fields.len() - 1, fields.last().push('.') + millis), ':'),
        ) == Ok::<nat, ParseError>(
            positional_seconds(fields) * 1_000_000_000 + decimal_value(millis) * 1_000_000,
        ),
{
    let seconds = fields.last();
    let last = seconds.push('.') + millis;
    let dotted = fields.update(fields.len() - 1, last);
    assert(is_number_text(seconds));
    assert forall|i: int, j: int| 0 <= i < dotted.len() && 0 <= j < dotted[i].len() implies
        is_digit(#[trigger] dotted[i][j]) || dotted[i][j] == '.' by {
        if i < fields.len() - 1 {
            assert(is_number_text(fields[i]));
        }
    }
    lemma_fields_are_cut_again(dotted);
    assert forall|j: int| 0 <= j < seconds.len() implies seconds[j] != '.' by {}
    assert forall|j: int| 0 <= j < millis.len() implies millis[j] != '.' by {}
    lemma_split_one_piece(seconds, '.');
    lemma_split_one_piece(millis, '.');
    lemma_split_at_separator(seconds, millis, '.');
    assert(split(last, '.') =~= seq![seconds, millis]);
    lemma_digits_are_read(seconds);
    lemma_digits_are_read(millis);
    assert forall|i: int| 0 <= i < dotted.len() - 1 implies is_number_text(
        #[trigger] dotted[i],
    ) by {
        assert(dotted[i] == fields[i]);
    }
    assert(unit_seconds(dotted) == unit_seconds(fields));
    lemma_units_add_up(
        dotted,
        value_at(fields, 0) * 1_000_000_000 + decimal_value(millis) * 1_000_000,
    );
}

/// Reading the seconds field gives no more than the longest duration, and
/// never complains of a field without a unit.
proof fn lemma_seconds_field_in_range(field: Seq<char>)
    ensures
        seconds_field_spec(field) matches Ok(nanos) ==> nanos <= max_nanos(),
        seconds_field_spec(field) != Err::<nat, ParseError>(ParseError::InvalidPart),
{
    lemma_read_number_fits(split(field, '.')[0]);
}

/// Reading fields gives no more than the longest duration, and complains of
/// a field without a unit only where there are more than four fields.
proof fn lemma_fields_in_range(fields: Seq<Seq<char>>, count: nat)
    ensures
        parse_fields(fields, count) matches Ok(nanos) ==> nanos <= max_nanos(),
        count <= 4 ==> parse_fields(fields, count) != Err::<nat, ParseError>(
            ParseError::InvalidPart,
        ),
    decreases count,
{
    if count <= 1 {
        lemma_seconds_field_in_range(fields.last());
    } else {
        lemma_fields_in_range(fields, (count - 1) as nat);
    }
}

/// A duration that was read is no longer than the longest duration, and
/// reading never complains of a field without a unit.
pub proof fn lemma_parse_in_range(s: Seq<char>)
    ensures
        parse_duration_spec(s) matches Ok(nanos) ==> nanos <= max_nanos(),
        parse_duration_spec(s) != Err::<nat, ParseError>(ParseError::InvalidPart),
{
    lemma_fields_in_range(split(s, ':'), split(s, ':').len());
}

/// Once reading has failed, the fields further left change nothing.
proof fn lemma_error_sticks(fields: Seq<Seq<char>>, failed: nat, count: nat)
    requires
        failed <= count,
        parse_fields(fields, failed) is Err,
    ensures
        parse_fields(fields, count) == parse_fields(fields, failed),
    decreases count,
{
    if count > failed && count > 1 {
        lemma_error_sticks(fields, failed, (count - 1) as nat);
    }
}

/// Cuts `text` at every `sep`.
pub fn split_chars(text: &Vec<char>, sep: char) -> (fields: Vec<Vec<char>>)
    ensures
        texts(fields@) == split(text@, sep),
        fields@.len() >= 1,
{
    let mut fields: Vec<Vec<char>> = Vec::new();
    let mut current: Vec<char> = Vec::new();
    let mut i: usize = 0;
    while i < text.len()
        invariant
            i <= text.len(),
            texts(fields@).push(current@) == split(text@.take(i as int), sep),
        decreases text.len() - i,
    {
        let c = text[i];
        let ghost before = split(text@.take(i as int), sep);
        proof {
            assert(text@.take(i + 1).drop_last() =~= text@.take(i as int));
            assert(text@.take(i + 1).last() == c);
            assert(before.last() == current@);
            assert(before.len() == fields@.len() + 1);
        }
        if c == sep {
            let ghost done = texts(fields@);
            fields.push(current);
            current = Vec::new();
            assert(texts(fields@) =~= done.push(before.last()));
            assert(texts(fields@).push(current@) =~= before.push(Seq::<char>::empty()));
        } else {
            current.push(c);
            assert(texts(fields@).push(current@) =~= before.update(
                before.len() - 1,
                before.last().push(c),
            ));
        }
        i += 1;
    }
    assert(text@.take(text.len() as int) =~= text@);
    let ghost done = texts(fields@);
    fields.push(current);
    assert(texts(fields@) =~= done.push(current@));
    fields
}

/// Reads the last field of a duration text: whole seconds, and milliseconds
/// after a dot.
pub fn parse_seconds(field: &Vec<char>) -> (r: Result<Duration, ParseError>)
    ensures
        match r {
            Ok(d) => seconds_field_spec(field@) == Ok::<nat, ParseError>(d@),
            Err(e) => seconds_field_spec(field@) == Err::<nat, ParseError>(e),
        },
{
    let pieces = split_chars(field, '.');
    assert(texts(pieces@)[0] == pieces@[0]@);
    if pieces.len() > 2 {
        return Err(ParseError::TooManyFractionParts);
    }
    let seconds = match parse_number(&pieces[0]) {
        Ok(value) => value,
        Err(cause) => {
            return Err(ParseError::InvalidNumber { field: Field::Whole(Unit::Seconds), cause });
        },
    };
    let whole = Duration::from_secs(seconds);
    if pieces.len() == 1 {
        return Ok(whole);
    }
    assert(texts(pieces@)[1] == pieces@[1]@);
    let millis = match parse_number(&pieces[1]) {
        Ok(value) => value,
        Err(cause) => {
            return Err(ParseError::InvalidNumber { field: Field::Milliseconds, cause });
        },
    };
    match whole.checked_add(Duration::from_millis(millis)) {
        Some(d) => {
            proof {
                d.lemma_valid_in_range();
            }
            Ok(d)
        },
        None => Err(ParseError::Overflow { unit: Unit::Seconds }),
    }
}

/// Adds to `total` the number in `field`, counted in `unit`.
pub fn add_unit(total: Duration, unit: Unit, field: &Vec<char>) -> (r: Result<
    Duration,
    ParseError,
>)
    ensures
        match r {
            Ok(d) => add_unit_spec(total@, unit, field@) == Ok::<nat, ParseError>(d@),
            Err(e) => add_unit_spec(total@, unit, field@) == Err::<nat, ParseError>(e),
        },
{
    let value = match parse_number(field) {
        Ok(value) => value,
        Err(NumberError::PosOverflow) => {
            return Err(ParseError::Overflow { unit });
        },
        Err(cause) => {
            return Err(ParseError::InvalidNumber { field: Field::Whole(unit), cause });
        },
    };
    let seconds = match value.checked_mul(unit.seconds()) {
        Some(seconds) => seconds,
        None => {
            return Err(ParseError::Overflow { unit });
        },
    };
    match total.checked_add(Duration::from_secs(seconds)) {
        Some(d) => {
            proof {
                d.lemma_valid_in_range();
            }
            Ok(d)
        },
        None => Err(ParseError::Overflow { unit }),
    }
}

/// Reads a duration written as `[[[d:]h:]m:]s[.ms]`.
pub fn parse_duration(duration_str: &str) -> (r: Result<Duration, ParseError>)
    ensures
        match r {
            Ok(d) => parse_duration_spec(duration_str@) == Ok::<nat, ParseError>(d@),
            Err(e) => parse_duration_spec(duration_str@) == Err::<nat, ParseError>(e),
        },
{
    let text = chars_of(duration_str);
    if text.len() == 0 {
        return Err(ParseError::MissingParts);
    }
    let parts = split_chars(&text, ':');
    let count = parts.len();
    if count > 4 {
        return Err(ParseError::TooManyParts);
    }
    let ghost fields = texts(parts@);
    assert(fields.last() == parts@[count - 1]@);
    let mut duration = match parse_seconds(&parts[count - 1]) {
        Ok(d) => d,
        Err(e) => {
            proof {
                lemma_error_sticks(fields, 1, count as nat);
            }
            return Err(e);
        },
    };
    let mut i: usize = 1;
    while i < count
        invariant
            1 <= i <= count <= 4,
            count == parts.len(),
            fields == texts(parts@),
            fields == split(duration_str@, ':'),
            duration_str@.len() > 0,
            parse_fields(fields, i as nat) == Ok::<nat, ParseError>(duration@),
        decreases count - i,
    {
        let unit = match Unit::at(i) {
            Ok(unit) => unit,
            Err(e) => {
                return Err(e);
            },
        };
        assert(fields[count - (i + 1)] == parts@[count - 1 - i]@);
        duration = match add_unit(duration, unit, &parts[count - 1 - i]) {
            Ok(d) => d,
            Err(e) => {
                proof {
                    lemma_error_sticks(fields, (i + 1) as nat, count as nat);
                }
                return Err(e);
            },
        };
        i += 1;
    }
    Ok(duration)
}

} // verus!
