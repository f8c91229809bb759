//! Message headers: what a collection of headers holds, and how setting a
//! header changes it.
//!
//! The collection itself is [`rhymessage::MessageHeaders`].  It keeps headers
//! in order, finds them by name without regard to ASCII case, and may have a
//! limit on the length of the lines that it writes.

use rhymessage::MessageHeaders;
use vstd::prelude::*;

verus! {

/// The collection of headers of a message.
#[verifier::external_type_specification]
#[verifier::external_body]
pub struct ExMessageHeaders(MessageHeaders);

/// One header: its name as spelled, and its value.
pub type Field = (Seq<char>, Seq<char>);

/// The headers that a collection holds, first to last.
pub uninterp spec fn header_fields(headers: MessageHeaders) -> Seq<Field>;

/// The limit that a collection has on the length of a header line, in bytes,
/// the line terminator counted.
pub uninterp spec fn line_limit(headers: MessageHeaders) -> Option<usize>;

/// The lower case form of an ASCII letter; any other character as it is.
pub open spec fn ascii_lower(c: char) -> char {
    if 'A' <= c <= 'Z' {
        ((c as nat) + 32) as char
    } else {
        c
    }
}

/// Whether two header names are the same name, ASCII case aside.
pub open spec fn same_name(a: Seq<char>, b: Seq<char>) -> bool {
    &&& a.len() == b.len()
    &&& forall|i: int| 0 <= i < a.len() ==> ascii_lower(#[trigger] a[i]) == ascii_lower(b[i])
}

/// The headers that do not have the given name, in their order.
pub open spec fn other_fields(fields: Seq<Field>, name: Seq<char>) -> Seq<Field>
    decreases fields.len(),
{
    if fields.len() == 0 {
        Seq::empty()
    } else if same_name(fields[0].0, name) {
        other_fields(fields.drop_first(), name)
    } else {
        seq![fields[0]] + other_fields(fields.drop_first(), name)
    }
}

/// The values of the headers that have the given name, in their order.
pub open spec fn field_values(fields: Seq<Field>, name: Seq<char>) -> Seq<Seq<char>>
    decreases fields.len(),
{
    if fields.len() == 0 {
        Seq::empty()
    } else if same_name(fields[0].0, name) {
        seq![fields[0].1] + field_values(fields.drop_first(), name)
    } else {
        field_values(fields.drop_first(), name)
    }
}

/// The headers after the header of the given name is set: its first
/// occurrence gets the value and keeps its place and spelling, further
/// occurrences go away, and without any the header is added at the end.
pub open spec fn set_field(fields: Seq<Field>, name: Seq<char>, value: Seq<char>) -> Seq<Field>
    decreases fields.len(),
{
    if fields.len() == 0 {
        seq![(name, value)]
    } else if same_name(fields[0].0, name) {
        seq![(fields[0].0, value)] + other_fields(fields.drop_first(), name)
    } else {
        seq![fields[0]] + set_field(fields.drop_first(), name, value)
    }
}

/// Calls [`MessageHeaders::set_header`]: the headers become those of
/// [`set_field`], and the line limit stays.
#[verifier::external_body]
pub(crate) fn set_header(headers: &mut MessageHeaders, name: &str, value: String)
    ensures
        header_fields(*final(headers)) == set_field(header_fields(*old(headers)), name@, value@),
        line_limit(*final(headers)) == line_limit(*old(headers)),
{
    headers.set_header(name, value)
}

/// [`MessageHeaders::new`] makes a collection without headers and without a
/// line limit.
pub assume_specification[ MessageHeaders::new ]() -> (headers: MessageHeaders)
    ensures
        header_fields(headers) == Seq::<Field>::empty(),
        line_limit(headers) is None,
;

/// [`MessageHeaders::set_line_limit`] changes the line limit and keeps the
/// headers.
pub assume_specification[ MessageHeaders::set_line_limit ](
    headers: &mut MessageHeaders,
    limit: Option<usize>,
)
    ensures
        header_fields(*final(headers)) == header_fields(*old(headers)),
        line_limit(*final(headers)) == limit,
;

/// Whether a line limit, if there is one, leaves room for the line terminator.
pub open spec fn is_usable_limit(limit: Option<usize>) -> bool {
    limit matches Some(limit) ==> limit >= 2
}

/// Calls [`MessageHeaders::parse`] on a copy of the headers.  The line limit
/// holds for lines that are read as it does for lines that are written, so
/// that the empty line is refused exactly if the limit leaves no room for the
/// line terminator.
#[verifier::external_body]
fn accepts(headers: &MessageHeaders, empty_line: &[u8]) -> (res: bool)
    requires
        empty_line@ == seq![13u8, 10u8],
    ensures
        res == is_usable_limit(line_limit(*headers)),
{
    headers.clone().parse(empty_line).is_ok()
}

/// Find out whether the line limit of a collection, if it has one, leaves room
/// for the line terminator.
pub fn has_usable_limit(headers: &MessageHeaders) -> (res: bool)
    ensures
        res == is_usable_limit(line_limit(*headers)),
{
    let mut empty_line: Vec<u8> = Vec::new();
    empty_line.push(13);
    empty_line.push(10);
    assert(empty_line@ =~= seq![13u8, 10u8]);
    accepts(headers, empty_line.as_slice())
}

/// Having the same name is reflexive, symmetric and transitive.
pub proof fn same_name_is_equivalence(a: Seq<char>, b: Seq<char>, c: Seq<char>)
    ensures
        same_name(a, a),
        same_name(a, b) == same_name(b, a),
        same_name(a, b) && same_name(b, c) ==> same_name(a, c),
{
    if same_name(a, b) {
        assert forall|i: int| 0 <= i < b.len() implies ascii_lower(#[trigger] b[i]) == ascii_lower(
            a[i],
        ) by {
            assert(ascii_lower(a[i]) == ascii_lower(b[i]));
        }
    }
    if same_name(b, a) {
        assert forall|i: int| 0 <= i < a.len() implies ascii_lower(#[trigger] a[i]) == ascii_lower(
            b[i],
        ) by {
            assert(ascii_lower(b[i]) == ascii_lower(a[i]));
        }
    }
    if same_name(a, b) && same_name(b, c) {
        assert forall|i: int| 0 <= i < a.len() implies ascii_lower(#[trigger] a[i]) == ascii_lower(
            c[i],
        ) by {
            assert(ascii_lower(a[i]) == ascii_lower(b[i]));
            assert(ascii_lower(b[i]) == ascii_lower(c[i]));
        }
    }
}

/// Leaving out the headers of one name leaves out all values of that name and
/// no value of another.
pub proof fn other_fields_keep_the_rest(fields: Seq<Field>, name: Seq<char>, asked: Seq<char>)
    ensures
        field_values(other_fields(fields, name), asked) == (if same_name(name, asked) {
            Seq::empty()
        } else {
            field_values(fields, asked)
        }),
        other_fields(other_fields(fields, name), name) == other_fields(fields, name),
    decreases fields.len(),
{
    if fields.len() > 0 {
        let first = fields[0].0;
        let rest = fields.drop_first();
        other_fields_keep_the_rest(rest, name, asked);
        same_name_is_equivalence(first, name, asked);
        same_name_is_equivalence(name, first, asked);
        same_name_is_equivalence(name, asked, first);
        same_name_is_equivalence(first, asked, name);
        if !same_name(first, name) {
            assert(other_fields(fields, name).drop_first() =~= other_fields(rest, name));
        }
    }
}

/// A header that was set has the value it was set to and no other; headers of
/// other names keep their values; all that does not have the name stays as it
/// was and in order.
pub proof fn set_header_reads_back(
    fields: Seq<Field>,
    name: Seq<char>,
    value: Seq<char>,
    asked: Seq<char>,
)
    ensures
        field_values(set_field(fields, name, value), asked) == (if same_name(name, asked) {
            seq![value]
        } else {
            field_values(fields, asked)
        }),
        other_fields(set_field(fields, name, value), name) == other_fields(fields, name),
    decreases fields.len(),
{
    reveal_with_fuel(field_values, 2);
    reveal_with_fuel(other_fields, 2);
    let set = set_field(fields, name, value);
    if fields.len() == 0 {
        same_name_is_equivalence(name, asked, asked);
        assert(set.drop_first() =~= Seq::empty());
    } else {
        let first = fields[0].0;
        let rest = fields.drop_first();
        same_name_is_equivalence(first, name, asked);
        same_name_is_equivalence(name, first, asked);
        same_name_is_equivalence(name, asked, first);
        same_name_is_equivalence(first, asked, name);
        if same_name(first, name) {
            assert(set.drop_first() =~= other_fields(rest, name));
            other_fields_keep_the_rest(rest, name, asked);
        } else {
            assert(set.drop_first() =~= set_field(rest, name, value));
            set_header_reads_back(rest, name, value, asked);
        }
    }
}

/// Setting a header twice is setting it to the second value.
pub proof fn last_set_header_wins(
    fields: Seq<Field>,
    name: Seq<char>,
    first: Seq<char>,
    second: Seq<char>,
)
    ensures
        set_field(set_field(fields, name, first), name, second) == set_field(fields, name, second),
    decreases fields.len(),
{
    reveal_with_fuel(set_field, 2);
    reveal_with_fuel(other_fields, 2);
    let set = set_field(fields, name, first);
    same_name_is_equivalence(name, name, name);
    if fields.len() == 0 {
        assert(set.drop_first() =~= Seq::empty());
        assert(set_field(set, name, second) =~= seq![(name, second)]);
    } else {
        let rest = fields.drop_first();
        if same_name(fields[0].0, name) {
            assert(set.drop_first() =~= other_fields(rest, name));
            other_fields_keep_the_rest(rest, name, name);
        } else {
            assert(set.drop_first() =~= set_field(rest, name, first));
            last_set_header_wins(rest, name, first, second);
        }
    }
}

} // verus!
