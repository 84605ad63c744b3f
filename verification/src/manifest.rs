//! Names of the manifest files that describe the league's resources.

use vstd::prelude::*;
use vstd::string::*;

verus! {

/// `s` with every occurrence of `from` exchanged for `to`.
pub open spec fn replaced(s: Seq<char>, from: char, to: char) -> Seq<char> {
    Seq::new(s.len(), |i: int| if s[i] == from { to } else { s[i] })
}

/// The fixed first component of every manifest file name.
pub open spec fn name_prefix() -> Seq<char> {
    seq!['l', 'e', 'a', 'g', 'u', 'e']
}

/// The fixed extension of every manifest file name.
pub open spec fn name_suffix() -> Seq<char> {
    seq!['.', 'y', 'a', 'm', 'l']
}

/// `league.<group>.<plural>.yaml`, the dots of the group written as underscores.
pub open spec fn crd_filename(group: Seq<char>, plural: Seq<char>) -> Seq<char> {
    name_prefix() + seq!['.'] + replaced(group, '.', '_') + seq!['.'] + plural + name_suffix()
}

/// Trusted: `str::replace` with a single character as the pattern and a
/// one-character string as the replacement. The standard library documents
/// that every match of the pattern is replaced and the rest is copied, so
/// the result has the length of `s` and differs from it exactly where `s`
/// holds `from`.
#[verifier::external_body]
fn replace_char(s: &str, from: char, to: &str) -> (out: String)
    requires
        to@.len() == 1,
    ensures
        out@ == replaced(s@, from, to@[0]),
{
    s.replace(from, to)
}

/// File name under which the definition of the resource `plural` of the API
/// group `group` is stored.
pub fn generate_crd_filename(group: &str, plural: &str) -> (name: String)
    ensures
        name@ == crd_filename(group@, plural@),
{
    proof {
        reveal_strlit("league");
        reveal_strlit(".");
        reveal_strlit("_");
        reveal_strlit(".yaml");
    }
    let flat = replace_char(group, '.', "_");
    let mut name = String::from_str("league");
    name.append(".");
    name.append(flat.as_str());
    name.append(".");
    name.append(plural);
    name.append(".yaml");
    assert("league"@ =~= name_prefix());
    assert(".yaml"@ =~= name_suffix());
    assert("."@ =~= seq!['.']);
    name
}

/// The kinds of resource that the league's API defines.
#[derive(Clone, Copy, Debug, PartialEq, Eq, Structural)]
pub enum ResourceKind {
    TheLeague,
    Standing,
    GameResult,
}

/// The API group of the league's resources.
pub open spec fn api_group() -> Seq<char> {
    "bexxmodd.com"@
}

/// The name under which the API lists the resources of a kind.
pub open spec fn plural_of(kind: ResourceKind) -> Seq<char> {
    match kind {
        ResourceKind::TheLeague => "theleagues"@,
        ResourceKind::Standing => "standings"@,
        ResourceKind::GameResult => "gameresults"@,
    }
}

impl ResourceKind {
    /// The name under which the API lists the resources of this kind.
    pub fn plural(&self) -> (name: &'static str)
        ensures
            name@ == plural_of(*self),
    {
        match self {
            ResourceKind::TheLeague => "theleagues",
            ResourceKind::Standing => "standings",
            ResourceKind::GameResult => "gameresults",
        }
    }
}

/// The file names of the definitions of all kinds: leagues, standings,
/// game results, in that order.
pub fn crd_filenames() -> (names: Vec<String>)
    ensures
        crate::model::texts(names@) == seq![
            crd_filename(api_group(), plural_of(ResourceKind::TheLeague)),
            crd_filename(api_group(), plural_of(ResourceKind::Standing)),
            crd_filename(api_group(), plural_of(ResourceKind::GameResult)),
        ],
{
    let mut names: Vec<String> = Vec::new();
    names.push(generate_crd_filename("bexxmodd.com", ResourceKind::TheLeague.plural()));
    names.push(generate_crd_filename("bexxmodd.com", ResourceKind::Standing.plural()));
    names.push(generate_crd_filename("bexxmodd.com", ResourceKind::GameResult.plural()));
    assert(crate::model::texts(names@) =~= seq![
        crd_filename(api_group(), plural_of(ResourceKind::TheLeague)),
        crd_filename(api_group(), plural_of(ResourceKind::Standing)),
        crd_filename(api_group(), plural_of(ResourceKind::GameResult)),
    ]);
    names
}

} // verus!
