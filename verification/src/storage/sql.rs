//! Values and parameters of SQL statements.
//!
//! SQLite statements are bound by position. Statements that name their
//! parameters are rewritten to numbered ones.

use vstd::prelude::*;

use crate::bytes::copy_bytes;
use crate::text::{decimal, decimal_text, str_eq};
use crate::types::{Bytes, Modeled, Text};

verus! {

/// A value that is bound to a parameter.
#[derive(Clone, Debug, PartialEq, Eq)]
pub enum SqlValue {
    Null,
    Integer(i64),
    Text(String),
    Blob(Vec<u8>),
}

/// The meaning of a [`SqlValue`].
pub enum SqlModel {
    Null,
    Integer(i64),
    Text(Text),
    Blob(Bytes),
}

impl Modeled for SqlValue {
    type Model = SqlModel;

    open spec fn model(&self) -> SqlModel {
        match self {
            SqlValue::Null => SqlModel::Null,
            SqlValue::Integer(n) => SqlModel::Integer(*n),
            SqlValue::Text(text) => SqlModel::Text(text@),
            SqlValue::Blob(bytes) => SqlModel::Blob(bytes@),
        }
    }
}

/// A value that can be bound to a parameter.
pub trait IntoSqlValue: Sized {
    /// What is bound for the value.
    spec fn bound(&self) -> SqlModel;

    fn into_sql_value(self) -> (value: SqlValue)
        ensures
            value.model() == self.bound(),
    ;
}

impl IntoSqlValue for SqlValue {
    open spec fn bound(&self) -> SqlModel {
        self.model()
    }

    fn into_sql_value(self) -> SqlValue {
        self
    }
}

impl IntoSqlValue for &str {
    open spec fn bound(&self) -> SqlModel {
        SqlModel::Text(self@)
    }

    fn into_sql_value(self) -> SqlValue {
        SqlValue::Text(self.to_owned())
    }
}

impl IntoSqlValue for String {
    open spec fn bound(&self) -> SqlModel {
        SqlModel::Text(self@)
    }

    fn into_sql_value(self) -> SqlValue {
        SqlValue::Text(self)
    }
}

impl IntoSqlValue for &String {
    open spec fn bound(&self) -> SqlModel {
        SqlModel::Text(self@)
    }

    fn into_sql_value(self) -> SqlValue {
        SqlValue::Text(self.clone())
    }
}

impl IntoSqlValue for &[u8] {
    open spec fn bound(&self) -> SqlModel {
        SqlModel::Blob(self@)
    }

    fn into_sql_value(self) -> SqlValue {
        SqlValue::Blob(copy_bytes(self))
    }
}

impl<const N: usize> IntoSqlValue for &[u8; N] {
    open spec fn bound(&self) -> SqlModel {
        SqlModel::Blob(self@)
    }

    fn into_sql_value(self) -> SqlValue {
        SqlValue::Blob(copy_bytes(self.as_slice()))
    }
}

impl<const N: usize> IntoSqlValue for [u8; N] {
    open spec fn bound(&self) -> SqlModel {
        SqlModel::Blob(self@)
    }

    fn into_sql_value(self) -> SqlValue {
        SqlValue::Blob(copy_bytes(self.as_slice()))
    }
}

impl IntoSqlValue for Vec<u8> {
    open spec fn bound(&self) -> SqlModel {
        SqlModel::Blob(self@)
    }

    fn into_sql_value(self) -> SqlValue {
        SqlValue::Blob(self)
    }
}

impl IntoSqlValue for &Vec<u8> {
    open spec fn bound(&self) -> SqlModel {
        SqlModel::Blob(self@)
    }

    fn into_sql_value(self) -> SqlValue {
        SqlValue::Blob(copy_bytes(self.as_slice()))
    }
}

impl IntoSqlValue for i8 {
    open spec fn bound(&self) -> SqlModel {
        SqlModel::Integer(*self as i64)
    }

    fn into_sql_value(self) -> SqlValue {
        SqlValue::Integer(self as i64)
    }
}

impl IntoSqlValue for &i8 {
    open spec fn bound(&self) -> SqlModel {
        SqlModel::Integer(**self as i64)
    }

    fn into_sql_value(self) -> SqlValue {
        SqlValue::Integer(*self as i64)
    }
}

impl IntoSqlValue for i16 {
    open spec fn bound(&self) -> SqlModel {
        SqlModel::Integer(*self as i64)
    }

    fn into_sql_value(self) -> SqlValue {
        SqlValue::Integer(self as i64)
    }
}

impl IntoSqlValue for &i16 {
    open spec fn bound(&self) -> SqlModel {
        SqlModel::Integer(**self as i64)
    }

    fn into_sql_value(self) -> SqlValue {
        SqlValue::Integer(*self as i64)
    }
}

impl IntoSqlValue for i32 {
    open spec fn bound(&self) -> SqlModel {
        SqlModel::Integer(*self as i64)
    }

    fn into_sql_value(self) -> SqlValue {
        SqlValue::Integer(self as i64)
    }
}

impl IntoSqlValue for &i32 {
    open spec fn bound(&self) -> SqlModel {
        SqlModel::Integer(**self as i64)
    }

    fn into_sql_value(self) -> SqlValue {
        SqlValue::Integer(*self as i64)
    }
}

impl IntoSqlValue for i64 {
    open spec fn bound(&self) -> SqlModel {
        SqlModel::Integer(*self as i64)
    }

    fn into_sql_value(self) -> SqlValue {
        SqlValue::Integer(self as i64)
    }
}

impl IntoSqlValue for &i64 {
    open spec fn bound(&self) -> SqlModel {
        SqlModel::Integer(**self as i64)
    }

    fn into_sql_value(self) -> SqlValue {
        SqlValue::Integer(*self as i64)
    }
}

impl IntoSqlValue for u8 {
    open spec fn bound(&self) -> SqlModel {
        SqlModel::Integer(*self as i64)
    }

    fn into_sql_value(self) -> SqlValue {
        SqlValue::Integer(self as i64)
    }
}

impl IntoSqlValue for &u8 {
    open spec fn bound(&self) -> SqlModel {
        SqlModel::Integer(**self as i64)
    }

    fn into_sql_value(self) -> SqlValue {
        SqlValue::Integer(*self as i64)
    }
}

impl IntoSqlValue for u16 {
    open spec fn bound(&self) -> SqlModel {
        SqlModel::Integer(*self as i64)
    }

    fn into_sql_value(self) -> SqlValue {
        SqlValue::Integer(self as i64)
    }
}

impl IntoSqlValue for &u16 {
    open spec fn bound(&self) -> SqlModel {
        SqlModel::Integer(**self as i64)
    }

    fn into_sql_value(self) -> SqlValue {
        SqlValue::Integer(*self as i64)
    }
}

impl IntoSqlValue for u32 {
    open spec fn bound(&self) -> SqlModel {
        SqlModel::Integer(*self as i64)
    }

    fn into_sql_value(self) -> SqlValue {
        SqlValue::Integer(self as i64)
    }
}

impl IntoSqlValue for &u32 {
    open spec fn bound(&self) -> SqlModel {
        SqlModel::Integer(**self as i64)
    }

    fn into_sql_value(self) -> SqlValue {
        SqlValue::Integer(*self as i64)
    }
}

impl IntoSqlValue for u64 {
    open spec fn bound(&self) -> SqlModel {
        SqlModel::Integer(*self as i64)
    }

    fn into_sql_value(self) -> SqlValue {
        SqlValue::Integer(self as i64)
    }
}

impl IntoSqlValue for &u64 {
    open spec fn bound(&self) -> SqlModel {
        SqlModel::Integer(**self as i64)
    }

    fn into_sql_value(self) -> SqlValue {
        SqlValue::Integer(*self as i64)
    }
}

impl IntoSqlValue for usize {
    open spec fn bound(&self) -> SqlModel {
        SqlModel::Integer(*self as i64)
    }

    fn into_sql_value(self) -> SqlValue {
        SqlValue::Integer(self as i64)
    }
}

impl IntoSqlValue for &usize {
    open spec fn bound(&self) -> SqlModel {
        SqlModel::Integer(**self as i64)
    }

    fn into_sql_value(self) -> SqlValue {
        SqlValue::Integer(*self as i64)
    }
}

impl IntoSqlValue for bool {
    open spec fn bound(&self) -> SqlModel {
        SqlModel::Integer(if *self {
            1
        } else {
            0
        })
    }

    fn into_sql_value(self) -> SqlValue {
        SqlValue::Integer(if self {
            1
        } else {
            0
        })
    }
}

impl<T: IntoSqlValue> IntoSqlValue for Option<T> {
    open spec fn bound(&self) -> SqlModel {
        match self {
            Some(value) => value.bound(),
            None => SqlModel::Null,
        }
    }

    fn into_sql_value(self) -> SqlValue {
        match self {
            Some(value) => value.into_sql_value(),
            None => SqlValue::Null,
        }
    }
}

impl<T> IntoSqlValue for &Option<T> where for<'a>&'a T: IntoSqlValue {
    open spec fn bound(&self) -> SqlModel {
        match self {
            Some(value) => (&value).bound(),
            None => SqlModel::Null,
        }
    }

    fn into_sql_value(self) -> SqlValue {
        match self {
            Some(value) => value.into_sql_value(),
            None => SqlValue::Null,
        }
    }
}

/// Text is bound as text, bytes as a blob, and a value that is bound already as
/// it is.
pub proof fn law_text_and_bytes_are_bound<const N: usize>(
    value: SqlValue,
    text: &str,
    string: String,
    bytes: &[u8],
    array: [u8; N],
    vector: Vec<u8>,
)
    ensures
        value.bound() == value.model(),
        text.bound() == SqlModel::Text(text@),
        string.bound() == SqlModel::Text(string@),
        (&string).bound() == SqlModel::Text(string@),
        bytes.bound() == SqlModel::Blob(bytes@),
        array.bound() == SqlModel::Blob(array@),
        (&array).bound() == SqlModel::Blob(array@),
        vector.bound() == SqlModel::Blob(vector@),
        (&vector).bound() == SqlModel::Blob(vector@),
        match value {
            SqlValue::Null => value.model() == SqlModel::Null,
            SqlValue::Integer(n) => value.model() == SqlModel::Integer(n),
            SqlValue::Text(text) => value.model() == SqlModel::Text(text@),
            SqlValue::Blob(bytes) => value.model() == SqlModel::Blob(bytes@),
        },
{
}

/// Numbers and flags are bound as numbers of 64 bits.
pub proof fn law_numbers_are_bound(
    a: i8,
    b: i16,
    c: i32,
    d: i64,
    e: u8,
    f: u16,
    g: u32,
    h: u64,
    i: usize,
    flag: bool,
)
    ensures
        a.bound() == SqlModel::Integer(a as i64) && (&a).bound() == a.bound(),
        b.bound() == SqlModel::Integer(b as i64) && (&b).bound() == b.bound(),
        c.bound() == SqlModel::Integer(c as i64) && (&c).bound() == c.bound(),
        d.bound() == SqlModel::Integer(d) && (&d).bound() == d.bound(),
        e.bound() == SqlModel::Integer(e as i64) && (&e).bound() == e.bound(),
        f.bound() == SqlModel::Integer(f as i64) && (&f).bound() == f.bound(),
        g.bound() == SqlModel::Integer(g as i64) && (&g).bound() == g.bound(),
        h.bound() == SqlModel::Integer(h as i64) && (&h).bound() == h.bound(),
        i.bound() == SqlModel::Integer(i as i64) && (&i).bound() == i.bound(),
        flag.bound() == SqlModel::Integer(
            if flag {
                1
            } else {
                0
            },
        ),
{
}

/// An optional value is bound as what it holds, and as null if it is empty.
pub proof fn law_optional_values_are_bound<T: IntoSqlValue>(value: Option<T>)
    ensures
        value is None ==> value.bound() == SqlModel::Null,
        value matches Some(held) ==> value.bound() == held.bound(),
{
}

/// The names of named parameters.
pub open spec fn names_of(named: Seq<(&'static str, SqlValue)>) -> Seq<Text> {
    named.map_values(|param: (&'static str, SqlValue)| param.0@)
}

/// Parameters are known by their names, in their order.
pub proof fn law_names_keep_their_order(named: Seq<(&'static str, SqlValue)>, i: int)
    ensures
        names_of(named).len() == named.len(),
        0 <= i < named.len() ==> names_of(named)[i] == named[i].0@,
{
}

/// The parameters of a statement, by name or by position.
#[derive(Clone, Debug)]
pub struct Params {
    named: Vec<(&'static str, SqlValue)>,
    positional: Vec<SqlValue>,
}

impl Params {
    /// The names of the named parameters.
    pub closed spec fn names(&self) -> Seq<Text> {
        names_of(self.named@)
    }

    /// The values to bind, in their order: those of the named parameters, or
    /// the positional ones where there are none.
    pub closed spec fn values(&self) -> Seq<SqlModel> {
        if self.named@.len() == 0 {
            self.positional@.map_values(|value: SqlValue| value.model())
        } else {
            self.named@.map_values(|param: (&'static str, SqlValue)| param.1.model())
        }
    }

    /// Parameters by name.
    pub fn named(values: Vec<(&'static str, SqlValue)>) -> (params: Self)
        ensures
            params.names() == names_of(values@),
            params.values() == values@.map_values(
                |param: (&'static str, SqlValue)| param.1.model(),
            ),
    {
        let params = Params { named: values, positional: Vec::new() };
        assert(values@.len() == 0 ==> params.values() =~= values@.map_values(
            |param: (&'static str, SqlValue)| param.1.model(),
        ));
        params
    }

    /// Parameters by position.
    pub fn positional(values: Vec<SqlValue>) -> (params: Self)
        ensures
            params.names() == Seq::<Text>::empty(),
            params.values() == values@.map_values(|value: SqlValue| value.model()),
    {
        let params = Params { named: Vec::new(), positional: values };
        assert(params.names() =~= Seq::<Text>::empty());
        params
    }

    /// The values to bind, in their order.
    pub fn into_values(self) -> (values: Vec<SqlValue>)
        ensures
            values@.map_values(|value: SqlValue| value.model()) == self.values(),
    {
        let Params { named, positional } = self;
        if named.len() == 0 {
            return positional;
        }
        let mut rest: Vec<(&'static str, SqlValue)> = named;
        let mut values: Vec<SqlValue> = Vec::new();
        let ghost models = self.values();
        while rest.len() > 0
            invariant
                rest@.len() + values@.len() == models.len(),
                forall|i: int| 0 <= i < values@.len() ==> (#[trigger] values@[i]).model() == models[i],
                forall|i: int|
                    0 <= i < rest@.len() ==> (#[trigger] rest@[i]).1.model() == models[i
                        + values@.len()],
            decreases rest.len(),
        {
            let (_, value) = rest.remove(0);
            values.push(value);
        }
        assert(values@.map_values(|value: SqlValue| value.model()) =~= models);
        values
    }
}

impl Default for Params {
    /// No parameters.
    fn default() -> (params: Self)
        ensures
            params.names() == Seq::<Text>::empty(),
            params.values() == Seq::<SqlModel>::empty(),
    {
        let params = Params { named: Vec::new(), positional: Vec::new() };
        assert(params.names() =~= Seq::<Text>::empty());
        assert(params.values() =~= Seq::<SqlModel>::empty());
        params
    }
}

/// A character that the name of a parameter may hold.
pub open spec fn is_name_char(c: char) -> bool {
    ('a' <= c <= 'z') || ('A' <= c <= 'Z') || ('0' <= c <= '9') || c == '_'
}

/// How many characters at the front of a text a name may hold.
pub open spec fn name_len(text: Text) -> nat
    decreases text.len(),
{
    if text.len() == 0 || !is_name_char(text[0]) {
        0
    } else {
        1 + name_len(text.skip(1))
    }
}

/// The place of a name in a list, counted from 1. A name that is listed more
/// than once stands at its last place.
pub open spec fn place_of(names: Seq<Text>, name: Text) -> Option<nat>
    decreases names.len(),
{
    if names.len() == 0 {
        None
    } else if names.last() == name {
        Some(names.len())
    } else {
        place_of(names.drop_last(), name)
    }
}

/// A statement with each named parameter, a colon and a name, replaced by a
/// question mark and its place; or the first name that is not listed.
pub open spec fn numbered(sql: Text, names: Seq<Text>) -> Result<Text, Text>
    decreases sql.len(),
{
    if sql.len() == 0 {
        Ok(Seq::empty())
    } else if sql[0] == ':' {
        let end = 1 + name_len(sql.skip(1)) as int;
        match place_of(names, sql.take(end)) {
            None => Err(sql.take(end)),
            Some(place) => {
                proof {
                    lemma_name_len(sql.skip(1));
                }
                behind("?"@ + decimal(place as int), numbered(sql.skip(end), names))
            },
        }
    } else {
        behind(sql.take(1), numbered(sql.skip(1), names))
    }
}

/// A statement behind some text.
pub open spec fn behind(front: Text, rest: Result<Text, Text>) -> Result<Text, Text> {
    match rest {
        Ok(text) => Ok(front + text),
        Err(name) => Err(name),
    }
}

/// A name is no longer than the text it stands in.
pub proof fn lemma_name_len(text: Text)
    ensures
        name_len(text) <= text.len(),
    decreases text.len(),
{
    if text.len() > 0 && is_name_char(text[0]) {
        lemma_name_len(text.skip(1));
    }
}

proof fn lemma_behind(a: Text, b: Text, rest: Result<Text, Text>)
    ensures
        behind(a, behind(b, rest)) == behind(a + b, rest),
{
    if let Ok(text) = rest {
        assert(a + (b + text) =~= (a + b) + text);
    }
}

/// A statement without a colon is left as it is, whatever the parameters are.
pub proof fn law_statement_without_names_stays(sql: Text, names: Seq<Text>)
    requires
        !sql.contains(':'),
    ensures
        numbered(sql, names) == Ok::<Text, Text>(sql),
    decreases sql.len(),
{
    if sql.len() == 0 {
        assert(sql =~= Seq::<char>::empty());
    } else {
        let rest = sql.skip(1);
        assert(!rest.contains(':')) by {
            if rest.contains(':') {
                let i = choose|i: int| 0 <= i < rest.len() && rest[i] == ':';
                assert(sql[i + 1] == ':');
            }
        }
        law_statement_without_names_stays(rest, names);
        assert(sql[0] != ':');
        assert(sql.take(1) + rest =~= sql);
    }
}

/// Text before the first colon of a statement is kept as it is.
pub proof fn law_text_between_names_stays(front: Text, rest: Text, names: Seq<Text>)
    requires
        !front.contains(':'),
    ensures
        numbered(front + rest, names) == (match numbered(rest, names) {
            Ok(text) => Ok::<Text, Text>(front + text),
            Err(name) => Err(name),
        }),
        numbered(Seq::empty(), names) == Ok::<Text, Text>(Seq::empty()),
    decreases front.len(),
{
    if front.len() == 0 {
        assert(front + rest =~= rest);
        if let Ok(text) = numbered(rest, names) {
            assert(front + text =~= text);
        }
    } else {
        let tail = front.skip(1);
        assert(!tail.contains(':')) by {
            if tail.contains(':') {
                let i = choose|i: int| 0 <= i < tail.len() && tail[i] == ':';
                assert(front[i + 1] == ':');
            }
        }
        assert(front.contains(front[0]));
        law_text_between_names_stays(tail, rest, names);
        let all = front + rest;
        assert(all[0] == front[0]);
        assert(all.skip(1) =~= tail + rest);
        assert(all.take(1) =~= front.take(1));
        if let Ok(text) = numbered(rest, names) {
            assert(front.take(1) + (tail + text) =~= front + text);
        }
    }
}

proof fn lemma_name_ends(name: Text, rest: Text)
    requires
        forall|i: int| 0 <= i < name.len() ==> is_name_char(#[trigger] name[i]),
        rest.len() == 0 || !is_name_char(rest[0]),
    ensures
        name_len(name + rest) == name.len(),
    decreases name.len(),
{
    if name.len() == 0 {
        assert(name + rest =~= rest);
    } else {
        let tail = name.skip(1);
        assert forall|i: int| 0 <= i < tail.len() implies is_name_char(#[trigger] tail[i]) by {
            assert(tail[i] == name[i + 1]);
        }
        lemma_name_ends(tail, rest);
        assert((name + rest).skip(1) =~= tail + rest);
        assert((name + rest)[0] == name[0]);
    }
}

proof fn lemma_place_of(names: Seq<Text>, name: Text, i: int)
    ensures
        !names.contains(name) ==> place_of(names, name) is None,
        0 <= i < names.len() && names[i] == name && (forall|j: int|
            i < j < names.len() ==> #[trigger] names[j] != name) ==> place_of(names, name) == Some(
            (i + 1) as nat,
        ),
    decreases names.len(),
{
    if names.len() > 0 {
        let front = names.drop_last();
        lemma_place_of(front, name, i);
        assert(names[names.len() - 1] == names.last());
        if !names.contains(name) {
            assert(!front.contains(name)) by {
                if front.contains(name) {
                    let j = choose|j: int| 0 <= j < front.len() && front[j] == name;
                    assert(names[j] == name);
                }
            }
        }
        if 0 <= i < names.len() - 1 && names[i] == name && forall|j: int|
            i < j < names.len() ==> #[trigger] names[j] != name {
            assert forall|j: int| i < j < front.len() implies #[trigger] front[j] != name by {
                assert(front[j] == names[j]);
            }
            assert(front[i] == name);
        }
    }
}

/// A colon with the letters, digits and underscores behind it is replaced by a
/// question mark and the place of the name in the list, the last one if it is
/// listed more than once; a name that is not listed is reported.
pub proof fn law_names_are_numbered(name: Text, rest: Text, names: Seq<Text>, i: int)
    requires
        forall|j: int|
            0 <= j < name.len() ==> {
                let c = #[trigger] name[j];
                ('a' <= c <= 'z') || ('A' <= c <= 'Z') || ('0' <= c <= '9') || c == '_'
            },
        rest.len() == 0 || {
            let c = rest[0];
            !(('a' <= c <= 'z') || ('A' <= c <= 'Z') || ('0' <= c <= '9') || c == '_')
        },
    ensures
        ({
            let full = seq![':'] + name;
            let whole = numbered(full + rest, names);
            &&& !names.contains(full) ==> whole == Err::<Text, Text>(full)
            &&& 0 <= i < names.len() && names[i] == full && (forall|j: int|
                i < j < names.len() ==> #[trigger] names[j] != full) ==> whole == (match numbered(
                rest,
                names,
            ) {
                Ok(text) => Ok::<Text, Text>(seq!['?'] + decimal(i + 1) + text),
                Err(missing) => Err(missing),
            })
        }),
{
    let full = seq![':'] + name;
    let sql = full + rest;
    let end = 1 + name.len() as int;
    reveal_strlit("?");
    assert("?"@ =~= seq!['?']);
    assert(sql[0] == ':');
    assert(sql.skip(1) =~= name + rest);
    lemma_name_ends(name, rest);
    assert(sql.take(end) =~= full);
    assert(sql.skip(end) =~= rest);
    lemma_place_of(names, full, i);
}

/// A name in a statement that no parameter has.
#[derive(Clone, Debug, PartialEq, Eq)]
pub struct MissingParameter {
    pub name: String,
}

impl MissingParameter {
    /// The error as it is shown to users.
    pub fn text(&self) -> (text: String)
        ensures
            text@ == "missing SQL parameter "@ + self.name@,
    {
        "missing SQL parameter ".to_owned().concat(self.name.as_str())
    }
}

fn is_name_character(c: char) -> (r: bool)
    ensures
        r == is_name_char(c),
{
    ('a' <= c && c <= 'z') || ('A' <= c && c <= 'Z') || ('0' <= c && c <= '9') || c == '_'
}

fn place_of_name(named: &Vec<(&'static str, SqlValue)>, name: &str) -> (place: Option<usize>)
    ensures
        match place_of(names_of(named@), name@) {
            Some(n) => place matches Some(found) && found == n,
            None => place is None,
        },
{
    let ghost names = names_of(named@);
    let mut i: usize = named.len();
    assert(names.take(i as int) =~= names);
    while i > 0
        invariant
            i <= named@.len(),
            names == names_of(named@),
            place_of(names, name@) == place_of(names.take(i as int), name@),
        decreases i,
    {
        assert(names.take(i as int).drop_last() =~= names.take(i - 1));
        if str_eq(named[i - 1].0, name) {
            return Some(i);
        }
        i -= 1;
    }
    None
}

/// Rewrites the named parameters of a statement to numbered ones.
///
/// A statement without named parameters is left as it is.
pub fn numbered_sql(sql: &str, params: &Params) -> (r: Result<String, MissingParameter>)
    ensures
        params.names().len() == 0 ==> (r matches Ok(text) && text@ == sql@),
        params.names().len() > 0 ==> match numbered(sql@, params.names()) {
            Ok(expected) => r matches Ok(text) && text@ == expected,
            Err(name) => r matches Err(missing) && missing.name@ == name,
        },
{
    if params.named.len() == 0 {
        return Ok(sql.to_owned());
    }
    let ghost names = params.names();
    let len: usize = sql.unicode_len();
    let mut out: String = String::new();
    let mut cursor: usize = 0;
    proof {
        assert(sql@.skip(0) =~= sql@);
        assert(behind(out@, numbered(sql@, names)) == numbered(sql@, names)) by {
            if let Ok(text) = numbered(sql@, names) {
                assert(out@ + text =~= text);
            }
        }
    }
    while cursor < len
        invariant
            cursor <= len,
            len == sql@.len(),
            names == params.names(),
            names.len() > 0,
            numbered(sql@, names) == behind(out@, numbered(sql@.skip(cursor as int), names)),
        decreases len - cursor,
    {
        let ghost rest = sql@.skip(cursor as int);
        let ghost done = out@;
        if sql.get_char(cursor) == ':' {
            let start: usize = cursor;
            cursor += 1;
            assert(rest.skip(1) =~= sql@.skip(cursor as int));
            while cursor < len && is_name_character(sql.get_char(cursor))
                invariant
                    start < cursor <= len,
                    len == sql@.len(),
                    rest == sql@.skip(start as int),
                    name_len(rest.skip(1)) == cursor - start - 1 + name_len(
                        sql@.skip(cursor as int),
                    ),
                decreases len - cursor,
            {
                assert(sql@.skip(cursor as int).skip(1) =~= sql@.skip(cursor + 1));
                cursor += 1;
            }
            let name = sql.substring_char(start, cursor);
            proof {
                assert(name@ =~= rest.take(cursor - start));
                assert(rest.skip(cursor - start) =~= sql@.skip(cursor as int));
            }
            match place_of_name(&params.named, name) {
                Some(place) => {
                    out.append("?");
                    out.append(decimal_text(place as i128).as_str());
                    proof {
                        let tail = numbered(sql@.skip(cursor as int), names);
                        assert(1 + name_len(rest.skip(1)) as int == cursor - start);
                        assert(numbered(rest, names) == behind("?"@ + decimal(place as int), tail));
                        lemma_behind(done, "?"@ + decimal(place as int), tail);
                        assert(out@ =~= done + ("?"@ + decimal(place as int)));
                    }
                },
                None => {
                    return Err(MissingParameter { name: name.to_owned() });
                },
            }
        } else {
            let c = sql.substring_char(cursor, cursor + 1);
            out.append(c);
            proof {
                assert(c@ =~= rest.take(1));
                assert(rest.skip(1) =~= sql@.skip(cursor + 1));
                assert(numbered(rest, names) == behind(c@, numbered(rest.skip(1), names)));
                lemma_behind(done, c@, numbered(rest.skip(1), names));
            }
            cursor += 1;
        }
    }
    assert(out@ + Seq::<char>::empty() =~= out@);
    Ok(out)
}

} // verus!
