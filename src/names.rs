//! Translation of schema names into identifiers of the generated code.

use vstd::prelude::*;
use vstd::string::*;

verus! {

/// What inflector's snake-case conversion makes of a piece of text.
pub uninterp spec fn snake_of(s: Seq<char>) -> Seq<char>;

/// What `char::to_uppercase` yields for one character.
pub uninterp spec fn upper_of(c: char) -> Seq<char>;

/// Relies on `inflector::cases::snakecase::to_snake_case`: the result depends on
/// the text alone.
#[verifier::external_body]
fn snake_case(s: &str) -> (r: String)
    ensures
        r@ == snake_of(s@),
{
    inflector::cases::snakecase::to_snake_case(s)
}

/// Relies on `char::to_uppercase`, collected into a `String`: the result depends
/// on the character alone.
#[verifier::external_body]
fn char_upper(c: char) -> (r: String)
    ensures
        r@ == upper_of(c),
{
    c.to_uppercase().collect::<String>()
}

/// A field name with the two reserved words escaped by a trailing underscore.
pub open spec fn escaped_field(n: Seq<char>) -> Seq<char> {
    if n == "return"@ || n == "type"@ {
        n + "_"@
    } else {
        n
    }
}

/// The identifier a member name becomes as a field.
pub open spec fn field_name_of(member: Seq<char>) -> Seq<char> {
    escaped_field(snake_of(member))
}

/// The text with its first character upper-cased.
pub open spec fn capitalized(s: Seq<char>) -> Seq<char> {
    if s.len() == 0 {
        s
    } else {
        upper_of(s[0]) + s.drop_first()
    }
}

/// The text with every underscore removed.
pub open spec fn without_underscores(s: Seq<char>) -> Seq<char>
    decreases s.len(),
{
    if s.len() == 0 {
        s
    } else if s.last() == '_' {
        without_underscores(s.drop_last())
    } else {
        without_underscores(s.drop_last()).push(s.last())
    }
}

/// The fixed table of names that would collide with a built-in or generated name.
pub open spec fn collision_free(n: Seq<char>) -> Seq<char> {
    if n == "Error"@ {
        "S3Error"@
    } else if n == "CancelSpotFleetRequests"@ {
        "EC2CancelSpotFleetRequests"@
    } else {
        n
    }
}

/// The identifier a shape name becomes as a type.
pub open spec fn type_name_of(s: Seq<char>) -> Seq<char> {
    collision_free(without_underscores(capitalized(s)))
}

/// Whether two strings hold the same characters.
pub fn str_eq(a: &str, b: &str) -> (r: bool)
    ensures
        r == (a@ == b@),
{
    let n = a.unicode_len();
    if n != b.unicode_len() {
        return false;
    }
    let mut i: usize = 0;
    while i < n
        invariant
            n == a@.len(),
            n == b@.len(),
            i <= n,
            forall|j: int| 0 <= j < i ==> a@[j] == b@[j],
        decreases n - i,
    {
        if a.get_char(i) != b.get_char(i) {
            return false;
        }
        i += 1;
    }
    assert(a@ =~= b@);
    true
}

/// Escapes a snake-cased name that is one of the reserved words.
pub fn escape_reserved(name: String) -> (r: String)
    ensures
        r@ == escaped_field(name@),
{
    if str_eq(name.as_str(), "return") || str_eq(name.as_str(), "type") {
        name.concat("_")
    } else {
        name
    }
}

/// Translates a member name into a field identifier, escaping reserved words.
pub fn generate_field_name(member_name: &str) -> (r: String)
    ensures
        r@ == field_name_of(member_name@),
{
    escape_reserved(snake_case(member_name))
}

/// Puts an upper-cased first character in front of the rest of a word.
pub fn join_capitalized(upper_first: String, word: &str) -> (r: String)
    requires
        word@.len() > 0,
    ensures
        r@ == upper_first@ + word@.drop_first(),
{
    let n = word.unicode_len();
    let rest = word.substring_char(1, n);
    assert(rest@ =~= word@.drop_first());
    upper_first.concat(rest)
}

/// Upper-cases the first character; empty input gives an empty string.
pub fn capitalize_first(word: &str) -> (r: String)
    ensures
        r@ == capitalized(word@),
        word@.len() == 0 ==> r@.len() == 0,
{
    let n = word.unicode_len();
    if n == 0 {
        let r = String::new();
        assert(r@ =~= word@);
        r
    } else {
        join_capitalized(char_upper(word.get_char(0)), word)
    }
}

/// Removes every underscore.
pub fn remove_underscores(s: &str) -> (r: String)
    ensures
        r@ == without_underscores(s@),
{
    let n = s.unicode_len();
    let mut out = String::new();
    let mut i: usize = 0;
    assert(s@.take(0) =~= Seq::<char>::empty());
    while i < n
        invariant
            n == s@.len(),
            i <= n,
            out@ == without_underscores(s@.take(i as int)),
        decreases n - i,
    {
        let c = s.get_char(i);
        assert(s@.take(i + 1).drop_last() =~= s@.take(i as int));
        if c != '_' {
            let one = s.substring_char(i, i + 1);
            assert(one@ =~= seq![c]);
            out.append(one);
            assert(out@ =~= without_underscores(s@.take(i as int)).push(c));
        }
        i += 1;
    }
    assert(s@.take(n as int) =~= s@);
    out
}

/// Applies the fixed collision table to a name.
pub fn apply_collision_table(name: String) -> (r: String)
    ensures
        r@ == collision_free(name@),
{
    if str_eq(name.as_str(), "Error") {
        String::from_str("S3Error")
    } else if str_eq(name.as_str(), "CancelSpotFleetRequests") {
        String::from_str("EC2CancelSpotFleetRequests")
    } else {
        name
    }
}

/// Finishes a type identifier from a name whose first character is already upper-cased.
pub fn type_name_from_capitalized(capitalized_name: &str) -> (r: String)
    ensures
        r@ == collision_free(without_underscores(capitalized_name@)),
{
    apply_collision_table(remove_underscores(capitalized_name))
}

/// Translates a shape name into a type identifier that collides with no Rust or
/// generated name.
pub fn mutate_type_name(shape_name: &str) -> (r: String)
    ensures
        r@ == type_name_of(shape_name@),
{
    let c = capitalize_first(shape_name);
    type_name_from_capitalized(c.as_str())
}

/// The identifier of the error variant for a shape.
pub fn error_type_name(name: &str) -> (r: String)
    ensures
        r@ == type_name_of(name@) + "Error"@,
{
    mutate_type_name(name).concat("Error")
}

/// A reserved word never comes out of field translation: both are escaped.
pub proof fn lemma_reserved_words_escaped(member: Seq<char>)
    ensures
        field_name_of(member) != "return"@,
        field_name_of(member) != "type"@,
        snake_of(member) == "return"@ ==> field_name_of(member) == "return_"@,
        snake_of(member) == "type"@ ==> field_name_of(member) == "type_"@,
{
    reveal_strlit("return");
    reveal_strlit("type");
    reveal_strlit("_");
    reveal_strlit("return_");
    reveal_strlit("type_");
    let n = snake_of(member);
    if n == "return"@ || n == "type"@ {
        assert(field_name_of(member).len() == n.len() + 1);
    }
    if n == "return"@ {
        assert(field_name_of(member) =~= "return_"@);
    }
    if n == "type"@ {
        assert(field_name_of(member) =~= "type_"@);
    }
}

/// Text without underscores is left as it is by underscore removal.
pub proof fn lemma_no_underscores(s: Seq<char>)
    requires
        forall|i: int| 0 <= i < s.len() ==> s[i] != '_',
    ensures
        without_underscores(s) == s,
    decreases s.len(),
{
    if s.len() > 0 {
        lemma_no_underscores(s.drop_last());
        assert(s.drop_last().push(s.last()) =~= s);
    }
}

/// The two names of the collision table are remapped to distinct names that
/// differ from both table entries; for a name that already starts with its own
/// upper-case form, translation is underscore removal and the table alone.
pub proof fn lemma_collision_table(s: Seq<char>)
    requires
        capitalized(s) == s,
    ensures
        type_name_of(s) == collision_free(without_underscores(s)),
        type_name_of("Error"@) == collision_free(without_underscores(capitalized("Error"@))),
        collision_free(without_underscores("Error"@)) == "S3Error"@,
        collision_free(without_underscores("CancelSpotFleetRequests"@))
            == "EC2CancelSpotFleetRequests"@,
        "S3Error"@ != "EC2CancelSpotFleetRequests"@,
        "S3Error"@ != "Error"@ && "S3Error"@ != "CancelSpotFleetRequests"@,
        "EC2CancelSpotFleetRequests"@ != "Error"@,
        "EC2CancelSpotFleetRequests"@ != "CancelSpotFleetRequests"@,
{
    reveal_strlit("Error");
    reveal_strlit("S3Error");
    reveal_strlit("CancelSpotFleetRequests");
    reveal_strlit("EC2CancelSpotFleetRequests");
    lemma_no_underscores("Error"@);
    lemma_no_underscores("CancelSpotFleetRequests"@);
    assert("S3Error"@.len() != "EC2CancelSpotFleetRequests"@.len());
    assert("S3Error"@.len() != "Error"@.len());
    assert("S3Error"@.len() != "CancelSpotFleetRequests"@.len());
    assert("EC2CancelSpotFleetRequests"@.len() != "Error"@.len());
    assert("EC2CancelSpotFleetRequests"@.len() != "CancelSpotFleetRequests"@.len());
}

/// A name that already starts with its own upper-case form, holds no underscore
/// and is not in the collision table translates to itself.
pub proof fn lemma_type_name_idempotent(s: Seq<char>)
    requires
        capitalized(s) == s,
        forall|i: int| 0 <= i < s.len() ==> s[i] != '_',
        s != "Error"@,
        s != "CancelSpotFleetRequests"@,
    ensures
        type_name_of(s) == s,
{
    lemma_no_underscores(s);
}

} // verus!
