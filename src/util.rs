use vstd::prelude::*;
use vstd::string::*;

verus! {

/// The text of a single character.
pub open spec fn chr(c: char) -> Seq<char> {
    seq![c]
}

/// An identifier can be quoted when it holds no double quote.
pub open spec fn quotable(s: Seq<char>) -> bool {
    !s.contains('"')
}

/// An identifier wrapped in double quotes.
pub open spec fn quoted(s: Seq<char>) -> Seq<char> {
    chr('"') + s + chr('"')
}

/// `"schema"."table"`, or `"table"` alone without a schema.
pub open spec fn table_ref(schema: Option<String>, table: Seq<char>) -> Seq<char> {
    match schema {
        Some(s) => quoted(s@) + chr('.') + quoted(table),
        None => quoted(table),
    }
}

pub open spec fn table_ref_ok(schema: Option<String>, table: Seq<char>) -> bool {
    quotable(table) && match schema {
        Some(s) => quotable(s@),
        None => true,
    }
}

/// Quoted identifiers joined by a separator.
pub open spec fn quoted_list(v: Seq<String>, sep: Seq<char>) -> Seq<char>
    decreases v.len(),
{
    if v.len() == 0 {
        Seq::empty()
    } else if v.len() == 1 {
        quoted(v[0]@)
    } else {
        quoted_list(v.drop_last(), sep) + sep + quoted(v.last()@)
    }
}

pub open spec fn all_quotable(v: Seq<String>) -> bool {
    forall|i: int| 0 <= i < v.len() ==> quotable(#[trigger] v[i]@)
}

/// The decimal digits of a number.
pub open spec fn decimal(n: nat) -> Seq<char>
    decreases n,
{
    if n < 10 {
        seq![digit_char(n)]
    } else {
        decimal(n / 10) + seq![digit_char(n % 10)]
    }
}

pub open spec fn digit_char(n: nat) -> char {
    if n == 0 { '0' }
    else if n == 1 { '1' }
    else if n == 2 { '2' }
    else if n == 3 { '3' }
    else if n == 4 { '4' }
    else if n == 5 { '5' }
    else if n == 6 { '6' }
    else if n == 7 { '7' }
    else if n == 8 { '8' }
    else { '9' }
}

/// The character occurs in the string.
pub(crate) fn contains_char(s: &str, c: char) -> (r: bool)
    ensures
        r == s@.contains(c),
{
    let n = s.unicode_len();
    let mut i: usize = 0;
    while i < n
        invariant
            i <= n,
            n == s@.len(),
            forall|k: int| 0 <= k < i ==> s@[k] != c,
        decreases n - i,
    {
        if s.get_char(i) == c {
            assert(s@[i as int] == c);
            return true;
        }
        i += 1;
    }
    false
}

pub(crate) fn str_to_string(s: &str) -> (r: String)
    ensures
        r@ == s@,
{
    s.to_owned()
}

fn digit_str(n: usize) -> (r: &'static str)
    requires
        n < 10,
    ensures
        r@ == seq![digit_char(n as nat)],
{
    proof { reveal_strlit("0"); reveal_strlit("1"); reveal_strlit("2"); reveal_strlit("3");
        reveal_strlit("4"); reveal_strlit("5"); reveal_strlit("6"); reveal_strlit("7");
        reveal_strlit("8"); reveal_strlit("9"); }
    let r = if n == 0 { "0" } else if n == 1 { "1" } else if n == 2 { "2" } else if n == 3 { "3" }
        else if n == 4 { "4" } else if n == 5 { "5" } else if n == 6 { "6" } else if n == 7 { "7" }
        else if n == 8 { "8" } else { "9" };
    assert(r@ =~= seq![digit_char(n as nat)]);
    r
}

/// Appends the decimal digits of `n`.
pub(crate) fn push_decimal(buf: &mut String, n: usize)
    ensures
        final(buf)@ == old(buf)@ + decimal(n as nat),
    decreases n,
{
    if n < 10 {
        buf.append(digit_str(n));
    } else {
        push_decimal(buf, n / 10);
        buf.append(digit_str(n % 10));
        assert(final(buf)@ =~= old(buf)@ + decimal(n as nat));
    }
}

pub(crate) fn push_str(buf: &mut String, s: &str)
    ensures
        final(buf)@ == old(buf)@ + s@,
{
    buf.append(s);
}

/// Appends `"s"`, or fails when `s` itself holds a double quote.
pub(crate) fn push_quoted(buf: &mut String, s: &str) -> (r: Result<(), crate::to_sql::SqlError>)
    ensures
        r is Ok <==> quotable(s@),
        r is Ok ==> final(buf)@ == old(buf)@ + quoted(s@),
        r matches Err(e) ==> e == crate::to_sql::SqlError::QuoteInIdentifier,
{
    if contains_char(s, '"') {
        return Err(crate::to_sql::SqlError::QuoteInIdentifier);
    }
    proof { reveal_strlit("\""); }
    buf.append("\"");
    buf.append(s);
    buf.append("\"");
    assert(final(buf)@ =~= old(buf)@ + quoted(s@));
    Ok(())
}

/// Appends a table name, qualified by its schema when there is one.
pub(crate) fn push_table_name(buf: &mut String, schema: &Option<String>, table: &str) -> (r: Result<
    (),
    crate::to_sql::SqlError,
>)
    ensures
        r is Ok <==> table_ref_ok(*schema, table@),
        r is Ok ==> final(buf)@ == old(buf)@ + table_ref(*schema, table@),
        r matches Err(e) ==> e == crate::to_sql::SqlError::QuoteInIdentifier,
{
    match schema {
        Some(s) => {
            if contains_char(table, '"') {
                return Err(crate::to_sql::SqlError::QuoteInIdentifier);
            }
            push_quoted(buf, s.as_str())?;
            proof { reveal_strlit("."); }
            buf.append(".");
            push_quoted(buf, table)?;
            assert(final(buf)@ =~= old(buf)@ + table_ref(*schema, table@));
            Ok(())
        },
        None => push_quoted(buf, table),
    }
}

/// Appends quoted identifiers joined by `sep`.
pub(crate) fn push_quoted_sequence(buf: &mut String, v: &Vec<String>, sep: &str) -> (r: Result<
    (),
    crate::to_sql::SqlError,
>)
    ensures
        r is Ok <==> all_quotable(v@),
        r is Ok ==> final(buf)@ == old(buf)@ + quoted_list(v@, sep@),
        r matches Err(e) ==> e == crate::to_sql::SqlError::QuoteInIdentifier,
{
    let mut i: usize = 0;
    while i < v.len()
        invariant
            i <= v.len(),
            all_quotable(v@.take(i as int)),
            buf@ == old(buf)@ + quoted_list(v@.take(i as int), sep@),
        decreases v.len() - i,
    {
        proof {
            assert(v@.take(i as int + 1).drop_last() =~= v@.take(i as int));
        }
        if i > 0 {
            buf.append(sep);
        }
        let res = push_quoted(buf, v[i].as_str());
        if res.is_err() {
            return res;
        }
        proof {
            assert(buf@ =~= old(buf)@ + quoted_list(v@.take(i as int + 1), sep@));
            assert(all_quotable(v@.take(i as int + 1)));
        }
        i += 1;
    }
    proof { assert(v@.take(i as int) =~= v@); }
    Ok(())
}

/// The identifier wrapped in double quotes, or an error when it holds one itself.
pub fn quote(s: &str) -> (r: Result<String, crate::to_sql::SqlError>)
    ensures
        r is Ok <==> quotable(s@),
        r matches Ok(q) ==> q@ == quoted(s@),
        r matches Err(e) ==> e == crate::to_sql::SqlError::QuoteInIdentifier,
{
    let mut buf = String::new();
    match push_quoted(&mut buf, s) {
        Ok(()) => Ok(buf),
        Err(e) => Err(e),
    }
}

/// `"schema"."table"`.
pub fn table_name(schema: &str, table: &str) -> (r: Result<String, crate::to_sql::SqlError>)
    ensures
        r is Ok <==> quotable(schema@) && quotable(table@),
        r matches Ok(q) ==> q@ == quoted(schema@) + chr('.') + quoted(table@),
        r matches Err(e) ==> e == crate::to_sql::SqlError::QuoteInIdentifier,
{
    let mut buf = String::new();
    let s = str_to_string(schema);
    match push_table_name(&mut buf, &Some(s), table) {
        Ok(()) => Ok(buf),
        Err(e) => Err(e),
    }
}

/// The column names that are taken for a primary key of a table named `schema`:
/// `<schema>_id`, `<schema>_uuid`, `id` and `uuid`.
pub fn pkey_column_names(schema: &str) -> (r: Vec<String>)
    ensures
        r@.len() == 4,
        r@[0]@ == schema@ + "_id"@,
        r@[1]@ == schema@ + "_uuid"@,
        r@[2]@ == "id"@,
        r@[3]@ == "uuid"@,
{
    let a = str_to_string(schema).concat("_id");
    let b = str_to_string(schema).concat("_uuid");
    let c = str_to_string("id");
    let d = str_to_string("uuid");
    vec![a, b, c, d]
}

/// The two strings hold the same characters.
pub(crate) fn str_eq(a: &str, b: &str) -> (r: bool)
    ensures
        r == (a@ == b@),
{
    let n = a.unicode_len();
    if n != b.unicode_len() {
        return false;
    }
    let mut i: usize = 0;
    while i < n
        invariant
            i <= n,
            n == a@.len(),
            n == b@.len(),
            forall|k: int| 0 <= k < i ==> a@[k] == b@[k],
        decreases n - i,
    {
        if a.get_char(i) != b.get_char(i) {
            return false;
        }
        i += 1;
    }
    assert(a@ =~= b@);
    true
}

pub(crate) fn clone_opt_string(s: &Option<String>) -> (r: Option<String>)
    ensures
        r == *s,
{
    match s {
        Some(x) => Some(x.clone()),
        None => None,
    }
}

} // verus!
