use ulid::Ulid;
use vstd::prelude::*;
use vstd::string::StringExecFns;

verus! {

/// The number of characters in a token.
pub const TOKEN_LEN: usize = 26;

/// Whether `c` is a digit of Crockford's base 32: a decimal digit or an
/// upper-case letter other than I, L, O and U.
pub open spec fn is_token_char(c: char) -> bool {
    ('0' <= c && c <= '9') || ('A' <= c && c <= 'Z' && c != 'I' && c != 'L' && c != 'O' && c != 'U')
}

/// Whether `token` has the shape of a unique token: 26 base-32 digits.
pub open spec fn is_token(token: Seq<char>) -> bool {
    &&& token.len() == TOKEN_LEN
    &&& forall|i: int| 0 <= i < token.len() ==> is_token_char(#[trigger] token[i])
}

/// The identifier made of a node's name and a token: the name, a hyphen,
/// the token.
pub open spec fn generated_id(node: Seq<char>, token: Seq<char>) -> Seq<char> {
    node + seq!['-'] + token
}

/// Whether `id` is an identifier that the node called `node` may generate.
pub open spec fn is_generated_id(node: Seq<char>, id: Seq<char>) -> bool {
    exists|token: Seq<char>| is_token(token) && id == #[trigger] generated_id(node, token)
}

/// The type `Ulid` of the crate `ulid`, of which nothing is known here but
/// that its values can be passed on.
#[verifier::external_type_specification]
#[verifier::external_body]
pub struct ExUlid(Ulid);

/// `Ulid::new` of the crate `ulid` reads the clock and a random number
/// generator; nothing is claimed of the value it returns.
pub assume_specification[ Ulid::new ]() -> (ulid: Ulid)
;

/// `Ulid::to_string` of the crate `ulid` writes the 128 bits as 26 digits of
/// Crockford's base 32, which is all this contract claims: the length, and
/// the alphabet of each character.
pub assume_specification[ Ulid::to_string ](ulid: &Ulid) -> (text: String)
    ensures
        is_token(text@),
;

/// A token that is new with overwhelming probability.
pub fn fresh_token() -> (token: String)
    ensures
        is_token(token@),
{
    let ulid = Ulid::new();
    ulid.to_string()
}

/// The identifier that `node` generates from `token`.
pub fn make_id(node: &String, token: &String) -> (id: String)
    ensures
        id@ == generated_id(node@, token@),
{
    let mut id = node.clone();
    proof {
        reveal_strlit("-");
    }
    id.append("-");
    id.append(token.as_str());
    assert("-"@ =~= seq!['-']);
    id
}

} // verus!
