//! The configuration: which repositories to walk, for which author, since
//! when, and with which credential.

use vstd::prelude::*;
use vstd::string::*;
use indexmap::IndexMap;
use crate::model::{RepositoryRef, RepositoryView, Timestamp};

verus! {

/// Why there is no configuration.
#[derive(Debug, Clone, Copy, PartialEq, Eq, Structural)]
pub enum ConfigError {
    /// The credential is absent or empty.
    MissingCredential,
    /// The mapping of owners to repositories is absent.
    MissingConfiguration,
    /// The mapping is not a JSON object of arrays of strings.
    Malformed,
}

/// A configuration that can be walked.
#[derive(Debug, Clone, PartialEq, Eq)]
pub struct Configuration {
    pub credential: String,
    /// The repositories, owner by owner in the order of the mapping, and for
    /// each owner in the order of its list.
    pub repositories: Vec<RepositoryRef>,
    pub author: String,
    pub since: Timestamp,
}

/// What a [`Configuration`] says, as mathematics.
pub struct ConfigurationView {
    pub credential: Seq<char>,
    pub repositories: Seq<RepositoryView>,
    pub author: Seq<char>,
    pub since: Timestamp,
}

impl View for Configuration {
    type V = ConfigurationView;

    open spec fn view(&self) -> ConfigurationView {
        ConfigurationView {
            credential: self.credential@,
            repositories: self.repositories.deep_view(),
            author: self.author@,
            since: self.since,
        }
    }
}

/// The author whose commits are counted.
pub open spec fn author() -> Seq<char> {
    "cloud303-cholden"@
}

/// The time from which on commits are counted: the first of January 2023,
/// midnight, UTC.
pub open spec fn cutoff() -> Timestamp {
    Timestamp { year: 2023, month: 1, day: 1, hour: 0, minute: 0, second: 0 }
}

/// What `serde_json` reads from a text as a mapping of owners to lists of
/// repository names: the owners in the order of the document, each with its
/// list; nothing where the text is no such mapping.
pub uninterp spec fn parsed_owners(text: Seq<char>) -> Option<Seq<(Seq<char>, Seq<Seq<char>>)>>;

/// The error of `serde_json`.
#[verifier::external_type_specification]
#[verifier::external_body]
pub struct ExJsonError(serde_json::Error);

/// Reads a mapping of owners to lists of repository names.
///
/// This is `serde_json::from_str`, asked for an `IndexMap` from `String` to
/// `Vec<String>`, whose entries are then handed out in their order. The
/// contract is taken on trust. It claims only that the result depends on the
/// text alone: the same text is read as the same mapping or refused alike.
#[verifier::external_body]
fn parse_owners(text: &str) -> (parsed: Result<Vec<(String, Vec<String>)>, serde_json::Error>)
    ensures
        match parsed {
            Ok(owners) => parsed_owners(text@) == Some(owners.deep_view()),
            Err(_) => parsed_owners(text@) is None,
        },
{
    let owners: IndexMap<String, Vec<String>> = serde_json::from_str(text)?;
    Ok(owners.into_iter().collect())
}

/// The repositories of one owner, in the order of the list.
pub open spec fn repositories_of_owner(owner: Seq<char>, names: Seq<Seq<char>>) -> Seq<
    RepositoryView,
> {
    names.map_values(|name: Seq<char>| RepositoryView { owner, name })
}

/// The repositories of a mapping: owner by owner, and for each owner in the
/// order of its list.
pub open spec fn repositories_of(owners: Seq<(Seq<char>, Seq<Seq<char>>)>) -> Seq<RepositoryView>
    decreases owners.len(),
{
    if owners.len() == 0 {
        Seq::empty()
    } else {
        repositories_of_owner(owners.first().0, owners.first().1) + repositories_of(
            owners.drop_first(),
        )
    }
}

/// The configuration that a raw mapping and a credential give, or the reason
/// why they give none. The credential is looked at first.
pub open spec fn resolved(raw: Option<Seq<char>>, credential: Option<Seq<char>>) -> Result<
    ConfigurationView,
    ConfigError,
> {
    match credential {
        None => Err(ConfigError::MissingCredential),
        Some(token) => if token.len() == 0 {
            Err(ConfigError::MissingCredential)
        } else {
            match raw {
                None => Err(ConfigError::MissingConfiguration),
                Some(text) => match parsed_owners(text) {
                    None => Err(ConfigError::Malformed),
                    Some(owners) => Ok(
                        ConfigurationView {
                            credential: token,
                            repositories: repositories_of(owners),
                            author: author(),
                            since: cutoff(),
                        },
                    ),
                },
            }
        },
    }
}

/// Lists the repositories of a mapping of owners to repository names.
pub fn list_repositories(owners: &Vec<(String, Vec<String>)>) -> (repositories: Vec<RepositoryRef>)
    ensures
        repositories.deep_view() == repositories_of(owners.deep_view()),
{
    let ghost all = owners.deep_view();
    let mut repositories: Vec<RepositoryRef> = Vec::new();
    let mut i: usize = 0;
    assert(all.skip(0) =~= all);
    while i < owners.len()
        invariant
            i <= owners.len(),
            all == owners.deep_view(),
            repositories.deep_view() + repositories_of(all.skip(i as int)) == repositories_of(all),
        decreases owners.len() - i,
    {
        let ghost rest = all.skip(i as int);
        let ghost done = repositories.deep_view();
        let ghost here = repositories_of_owner(rest.first().0, rest.first().1);
        assert(rest.drop_first() =~= all.skip(i + 1));
        let owner = &owners[i].0;
        let names = &owners[i].1;
        let mut j: usize = 0;
        while j < names.len()
            invariant
                j <= names.len(),
                here == repositories_of_owner(owner@, names.deep_view()),
                repositories.deep_view() == done + here.take(j as int),
            decreases names.len() - j,
        {
            repositories.push(RepositoryRef { owner: owner.clone(), name: names[j].clone() });
            assert(done + here.take(j + 1) =~= (done + here.take(j as int)).push(here[j as int]));
            j += 1;
        }
        i += 1;
    }
    repositories
}

/// Resolves the configuration from the raw mapping of owners to repository
/// names and the credential, as the environment gives them.
pub fn resolve(raw: Option<&str>, credential: Option<&str>) -> (configuration: Result<
    Configuration,
    ConfigError,
>)
    ensures
        match configuration {
            Ok(c) => resolved(view_of(raw), view_of(credential)) == Ok::<
                ConfigurationView,
                ConfigError,
            >(c@),
            Err(e) => resolved(view_of(raw), view_of(credential)) == Err::<
                ConfigurationView,
                ConfigError,
            >(e),
        },
{
    let token = match credential {
        Some(token) => token,
        None => {
            return Err(ConfigError::MissingCredential);
        },
    };
    if token.unicode_len() == 0 {
        return Err(ConfigError::MissingCredential);
    }
    let text = match raw {
        Some(text) => text,
        None => {
            return Err(ConfigError::MissingConfiguration);
        },
    };
    match parse_owners(text) {
        Err(_) => Err(ConfigError::Malformed),
        Ok(owners) => {
            proof {
                reveal_strlit("cloud303-cholden");
            }
            Ok(
                Configuration {
                    credential: String::from_str(token),
                    repositories: list_repositories(&owners),
                    author: String::from_str("cloud303-cholden"),
                    since: Timestamp { year: 2023, month: 1, day: 1, hour: 0, minute: 0, second: 0 },
                },
            )
        },
    }
}

/// What an optional text says, as mathematics.
pub open spec fn view_of(text: Option<&str>) -> Option<Seq<char>> {
    match text {
        Some(text) => Some(text@),
        None => None,
    }
}

} // verus!
