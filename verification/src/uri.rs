//! The identifier model: a namespace-qualified name in one of five
//! representations, together with its canonical textual form and its
//! canonicalization against a base namespace and a prefix table.

use vstd::prelude::*;

verus! {

/// How an identifier's namespace is represented before canonicalization.
/// After canonicalization only `Full` and `BlankNode` remain.
#[derive(Debug, Clone, Copy, PartialEq, Eq, Structural)]
pub enum UriType {
    Full,
    Relative,
    Prefixed,
    PrefixedWithBase,
    BlankNode,
}

/// A namespace-qualified identifier. Its textual form is `prefix ++ name`.
/// A `prefix` beginning with the blank-node sigil `_` denotes an existential
/// variable rather than a namespace.
#[derive(Debug, PartialEq, Eq)]
pub struct Uri {
    pub prefix: String,
    pub name: String,
    pub uri_type: UriType,
}

/// The mathematical value of an identifier: both textual fields as character
/// sequences, plus the representation kind.
pub ghost struct UriModel {
    pub prefix: Seq<char>,
    pub name: Seq<char>,
    pub kind: UriType,
}

impl View for Uri {
    type V = UriModel;

    open spec fn view(&self) -> UriModel {
        UriModel { prefix: self.prefix@, name: self.name@, kind: self.uri_type }
    }
}

/// The canonical textual form of an identifier.
pub open spec fn uri_text(u: UriModel) -> Seq<char> {
    u.prefix + u.name
}

/// An identifier is resolved when canonicalization can leave it unchanged.
pub open spec fn uri_resolved(u: UriModel) -> bool {
    u.kind == UriType::Full || u.kind == UriType::BlankNode
}

/// A failure surfaced by canonicalization: a non-blank prefix that the
/// graph's prefix table does not define, carrying the offending token.
#[derive(Debug, PartialEq, Eq)]
pub enum Error {
    UnresolvedPrefix(String),
}

/// The prefix table of a graph, as pairs of prefix token and expansion.
/// The textual content of such a table.
pub open spec fn table_view(t: Seq<(String, String)>) -> Seq<(Seq<char>, Seq<char>)> {
    t.map_values(|p: (String, String)| (p.0@, p.1@))
}

/// The expansion that a prefix table gives to a token: the first entry with
/// a matching key, if any.
pub open spec fn table_lookup(t: Seq<(Seq<char>, Seq<char>)>, key: Seq<char>) -> Option<
    Seq<char>,
>
    decreases t.len(),
{
    if t.len() == 0 {
        None
    } else if t[0].0 == key {
        Some(t[0].1)
    } else {
        table_lookup(t.skip(1), key)
    }
}

/// What canonicalization does to one identifier: `Relative` and
/// `PrefixedWithBase` take the base namespace and become `Full`; `Prefixed`
/// is looked up in the prefix table and becomes `Full`, or is marked a
/// blank node when its token starts with the blank-node sigil; a token that
/// is neither defined nor blank is the error. `Full` and `BlankNode` pass
/// through unchanged.
pub open spec fn canon_uri(u: UriModel, base: Seq<char>, table: Seq<(Seq<char>, Seq<char>)>) -> Result<
    UriModel,
    Seq<char>,
> {
    match u.kind {
        UriType::Full => Ok(u),
        UriType::BlankNode => Ok(u),
        UriType::Relative => Ok(UriModel { prefix: base, name: u.name, kind: UriType::Full }),
        UriType::PrefixedWithBase => Ok(
            UriModel { prefix: base, name: u.name, kind: UriType::Full },
        ),
        UriType::Prefixed => match table_lookup(table, u.prefix) {
            Some(expansion) => Ok(UriModel { prefix: expansion, name: u.name, kind: UriType::Full }),
            None => if u.prefix.len() > 0 && u.prefix[0] == '_' {
                Ok(UriModel { prefix: u.prefix, name: u.name, kind: UriType::BlankNode })
            } else {
                Err(u.prefix)
            },
        },
    }
}

/// A canonicalized identifier is always resolved: only `Full` and
/// `BlankNode` kinds can come out of `canon_uri`.
pub proof fn lemma_canon_uri_resolved(u: UriModel, base: Seq<char>, table: Seq<(Seq<char>, Seq<char>)>)
    ensures
        canon_uri(u, base, table) matches Ok(c) ==> uri_resolved(c),
{
}

/// Looks a key up in a prefix table, returning the first matching expansion.
fn table_get<'a>(prefixes: &'a Vec<(String, String)>, key: &str) -> (r: Option<&'a String>)
    ensures
        match r {
            Some(v) => table_lookup(table_view(prefixes@), key@) == Some(v@),
            None => table_lookup(table_view(prefixes@), key@) is None,
        },
{
    let ghost table = table_view(prefixes@);
    proof {
        assert(table.skip(0) =~= table);
    }
    let mut i: usize = 0;
    while i < prefixes.len()
        invariant
            0 <= i <= prefixes.len(),
            table == table_view(prefixes@),
            table.len() == prefixes@.len(),
            forall|k: int| 0 <= k < prefixes@.len() ==> table[k] == (prefixes@[k].0@, prefixes@[k].1@),
            table_lookup(table, key@) == table_lookup(table.skip(i as int), key@),
        decreases prefixes.len() - i,
    {
        if prefixes[i].0 == key.to_owned() {
            proof {
                assert(table.skip(i as int)[0] == table[i as int]);
            }
            return Some(&prefixes[i].1);
        }
        proof {
            assert(table.skip(i as int)[0] == table[i as int]);
            assert(table.skip(i as int).skip(1) =~= table.skip(i + 1));
        }
        i = i + 1;
    }
    proof {
        assert(table.skip(i as int) =~= Seq::<(Seq<char>, Seq<char>)>::empty());
    }
    None
}

impl Uri {
    pub fn new(prefix: &str, name: &str, uri_type: UriType) -> (u: Uri)
        ensures
            u@ == (UriModel { prefix: prefix@, name: name@, kind: uri_type }),
    {
        Uri { prefix: prefix.to_owned(), name: name.to_owned(), uri_type }
    }

    /// The canonical textual form, `prefix ++ name`.
    pub fn to_text(&self) -> (r: String)
        ensures
            r@ == uri_text(self@),
    {
        self.prefix.clone().concat(self.name.as_str())
    }

    /// Structural equality of identifiers: same prefix, name and kind.
    pub fn same_as(&self, other: &Uri) -> (r: bool)
        ensures
            r == (self@ == other@),
    {
        self.prefix == other.prefix && self.name == other.name && self.uri_type
            == other.uri_type
    }

    /// Rewrites this identifier to its canonical form under the given base
    /// namespace and prefix table, following `canon_uri`.
    pub fn canonicalize(&self, base: &str, prefixes: &Vec<(String, String)>) -> (r: Result<
        Uri,
        Error,
    >)
        ensures
            match r {
                Ok(u) => canon_uri(self@, base@, table_view(prefixes@)) == Ok::<
                    UriModel,
                    Seq<char>,
                >(u@),
                Err(Error::UnresolvedPrefix(p)) => canon_uri(self@, base@, table_view(prefixes@))
                    == Err::<UriModel, Seq<char>>(p@) && p@ == self.prefix@,
            },
    {
        match self.uri_type {
            UriType::Full => Ok(self.clone()),
            UriType::BlankNode => Ok(self.clone()),
            UriType::Relative => Ok(
                Uri { prefix: base.to_owned(), name: self.name.clone(), uri_type: UriType::Full },
            ),
            UriType::PrefixedWithBase => Ok(
                Uri { prefix: base.to_owned(), name: self.name.clone(), uri_type: UriType::Full },
            ),
            UriType::Prefixed => match table_get(prefixes, self.prefix.as_str()) {
                Some(expansion) => Ok(
                    Uri {
                        prefix: expansion.clone(),
                        name: self.name.clone(),
                        uri_type: UriType::Full,
                    },
                ),
                None => {
                    if self.prefix.as_str().unicode_len() > 0 && self.prefix.as_str().get_char(0)
                        == '_' {
                        Ok(
                            Uri {
                                prefix: self.prefix.clone(),
                                name: self.name.clone(),
                                uri_type: UriType::BlankNode,
                            },
                        )
                    } else {
                        Err(Error::UnresolvedPrefix(self.prefix.clone()))
                    }
                },
            },
        }
    }
}

impl Clone for Uri {
    fn clone(&self) -> (r: Self)
        ensures
            r == *self,
    {
        Uri { prefix: self.prefix.clone(), name: self.name.clone(), uri_type: self.uri_type }
    }
}

} // verus!
