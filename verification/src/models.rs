//! The closed set of reactions a user can put on a day's image.
//!
//! A few historical reactions are kept so that old records can still be read,
//! but they are deprecated: they are never accepted for new writes and no
//! counter is kept for them.

use vstd::prelude::*;

use crate::counts::ReactionCounts;

verus! {

/// Every reaction this system has ever known. `Eesh` and `Pain` are
/// deprecated: readable, never newly set.
#[derive(Clone, Copy, Debug, PartialEq, Eq, Structural)]
pub enum Reactions {
    NoReaction,
    Funny,
    Love,
    Tough,
    Wow,
    Eesh,
    Pain,
}

/// Rejection of a reaction name that no variant carries.
#[derive(Debug, PartialEq, Eq)]
pub enum ReactionError {
    ReactionParseError(String),
}

impl Reactions {
    /// Whether this reaction may still be written.
    pub open spec fn spec_is_active(self) -> bool {
        !(self is Eesh || self is Pain)
    }

    /// The name this reaction is stored and displayed under.
    pub open spec fn spec_name(self) -> Seq<char> {
        match self {
            Reactions::NoReaction => "NoReaction"@,
            Reactions::Funny => "Funny"@,
            Reactions::Love => "Love"@,
            Reactions::Tough => "Tough"@,
            Reactions::Wow => "Wow"@,
            Reactions::Eesh => "Eesh"@,
            Reactions::Pain => "Pain"@,
        }
    }

    /// The reaction a name denotes, if any.
    pub open spec fn spec_of_name(s: Seq<char>) -> Option<Reactions> {
        if s == "NoReaction"@ {
            Some(Reactions::NoReaction)
        } else if s == "Funny"@ {
            Some(Reactions::Funny)
        } else if s == "Love"@ {
            Some(Reactions::Love)
        } else if s == "Tough"@ {
            Some(Reactions::Tough)
        } else if s == "Wow"@ {
            Some(Reactions::Wow)
        } else if s == "Eesh"@ {
            Some(Reactions::Eesh)
        } else if s == "Pain"@ {
            Some(Reactions::Pain)
        } else {
            None
        }
    }

    /// The names of the reactions that may still be written, in declaration
    /// order.
    pub open spec fn spec_active_names() -> Seq<Seq<char>> {
        seq!["NoReaction"@, "Funny"@, "Love"@, "Tough"@, "Wow"@]
    }

    pub fn is_active(&self) -> (r: bool)
        ensures
            r == self.spec_is_active(),
    {
        !(matches!(self, Reactions::Eesh) || matches!(self, Reactions::Pain))
    }

    /// The stored name of this reaction.
    pub fn name(&self) -> (r: String)
        ensures
            r@ == self.spec_name(),
    {
        match self {
            Reactions::NoReaction => String::from_str("NoReaction"),
            Reactions::Funny => String::from_str("Funny"),
            Reactions::Love => String::from_str("Love"),
            Reactions::Tough => String::from_str("Tough"),
            Reactions::Wow => String::from_str("Wow"),
            Reactions::Eesh => String::from_str("Eesh"),
            Reactions::Pain => String::from_str("Pain"),
        }
    }

    /// The names of all reactions that may still be written.
    pub fn active_reactions() -> (r: Vec<String>)
        ensures
            r.deep_view() == Reactions::spec_active_names(),
    {
        let mut names: Vec<String> = Vec::new();
        names.push(String::from_str("NoReaction"));
        names.push(String::from_str("Funny"));
        names.push(String::from_str("Love"));
        names.push(String::from_str("Tough"));
        names.push(String::from_str("Wow"));
        proof {
            assert(names.deep_view() =~= Reactions::spec_active_names());
        }
        names
    }

    /// The counters a day's record starts from: zero for every reaction
    /// that may still be written.
    pub fn build_starting_counts() -> (r: ReactionCounts)
        ensures
            r == ReactionCounts::spec_zero(),
    {
        ReactionCounts::new()
    }

    /// Parse a stored or submitted reaction name.
    pub fn get_reaction(reaction_str: &str) -> (r: Result<Self, ReactionError>)
        ensures
            match Reactions::spec_of_name(reaction_str@) {
                Some(v) => r == Ok::<Reactions, ReactionError>(v),
                None => r is Err,
            },
    {
        let s = String::from_str(reaction_str);
        if s == String::from_str("NoReaction") {
            Ok(Reactions::NoReaction)
        } else if s == String::from_str("Funny") {
            Ok(Reactions::Funny)
        } else if s == String::from_str("Love") {
            Ok(Reactions::Love)
        } else if s == String::from_str("Tough") {
            Ok(Reactions::Tough)
        } else if s == String::from_str("Wow") {
            Ok(Reactions::Wow)
        } else if s == String::from_str("Eesh") {
            Ok(Reactions::Eesh)
        } else if s == String::from_str("Pain") {
            Ok(Reactions::Pain)
        } else {
            Err(ReactionError::ReactionParseError(s))
        }
    }
}

/// Every reaction's stored name denotes that reaction and nothing else, so
/// writing a name and reading it back cannot change the reaction.
pub proof fn lemma_name_round_trip(r: Reactions)
    ensures
        Reactions::spec_of_name(r.spec_name()) == Some(r),
{
    reveal_strlit("NoReaction");
    reveal_strlit("Funny");
    reveal_strlit("Love");
    reveal_strlit("Tough");
    reveal_strlit("Wow");
    reveal_strlit("Eesh");
    reveal_strlit("Pain");
    // lengths tell most names apart; a first letter settles the rest
    assert("NoReaction"@.len() == 10);
    assert("Funny"@.len() == 5);
    assert("Love"@.len() == 4);
    assert("Tough"@.len() == 5);
    assert("Wow"@.len() == 3);
    assert("Eesh"@.len() == 4);
    assert("Pain"@.len() == 4);
    assert("Funny"@[0] == 'F');
    assert("Tough"@[0] == 'T');
    assert("Love"@[0] == 'L');
    assert("Eesh"@[0] == 'E');
    assert("Pain"@[0] == 'P');
}

} // verus!
