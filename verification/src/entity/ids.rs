use vstd::prelude::*;

verus! {

/// Opaque identifier of a user, unique and stable for the user's lifetime.
#[derive(Debug, Clone, PartialEq, Eq, Hash)]
pub struct UserId(pub String);

impl View for UserId {
    type V = Seq<char>;

    open spec fn view(&self) -> Seq<char> {
        self.0@
    }
}

/// Identifier of one daily mission.
#[derive(Debug, Clone, PartialEq, Eq, Hash)]
pub struct DailyMissionId(pub String);

impl View for DailyMissionId {
    type V = Seq<char>;

    open spec fn view(&self) -> Seq<char> {
        self.0@
    }
}

/// An issued authentication token, as handed to and received from clients.
#[derive(Debug, Clone)]
pub struct Token(pub String);

impl View for Token {
    type V = Seq<char>;

    open spec fn view(&self) -> Seq<char> {
        self.0@
    }
}

} // verus!
