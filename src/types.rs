use vstd::prelude::*;

verus! {

/// What can go wrong in a relationship operation.
#[derive(Debug, Clone, Copy, PartialEq, Eq, Structural)]
pub enum SomeError {
    /// An identifier does not have the shape of a user code.
    ValidationError,
    /// A referenced user does not exist.
    NotExistError,
    /// The two identifiers of a pair are equal where they must differ.
    SameIdError,
}

/// The HTTP status with which every failed operation is answered.
pub const ERROR_STATUS: u16 = 500;

impl SomeError {
    /// The status code a transport answers this error with.
    pub fn status_code(&self) -> (r: u16)
        ensures
            r == ERROR_STATUS,
    {
        ERROR_STATUS
    }

    /// The text a transport answers this error with: validation failures get
    /// their own text, the two kinds of refusal share one.
    pub fn message(&self) -> (r: &'static str)
        ensures
            *self is ValidationError ==> r@ == "something went wrong"@,
            !(*self is ValidationError) ==> r@ == "something else went wrong"@,
    {
        match self {
            SomeError::ValidationError => "something went wrong",
            SomeError::NotExistError => "something else went wrong",
            SomeError::SameIdError => "something else went wrong",
        }
    }
}

/// The two sides of a request: the caller and the other user.
#[derive(Debug, Clone, Copy, PartialEq, Eq, Structural)]
pub struct IdPair {
    pub my_id: i32,
    pub target_id: i32,
}

/// A pair of user codes, as they arrive from outside.
#[derive(Debug, Clone, PartialEq, Eq)]
pub struct CodePair {
    pub my_id: String,
    pub target_id: String,
}

/// The searcher and the piece of name they look for.
#[derive(Debug, Clone, PartialEq, Eq)]
pub struct IdAndName {
    pub my_id: i32,
    pub target_name: String,
}

/// A directed edge: `active` has sent a friend request to `passive`.
#[derive(Debug, Clone, Copy, PartialEq, Eq, Structural)]
pub struct AddFriend {
    pub active: i32,
    pub passive: i32,
}

/// A beacon position: a registered spot is named by its major and minor numbers.
#[derive(Debug, Clone, Copy, PartialEq, Eq, Structural)]
pub struct Spot {
    pub major: i32,
    pub minor: i32,
}

/// What registration hands over: a name and an already hashed password.
#[derive(Debug, Clone, PartialEq, Eq)]
pub struct NameAndPassword {
    pub name: String,
    pub hashed_password: String,
}

/// A stored user.
#[derive(Debug, Clone, PartialEq, Eq)]
pub struct User {
    pub id: i32,
    pub user_name: String,
    pub icon_path: String,
    pub hashed_password: String,
}

/// What other users may see of a user.
#[derive(Debug, Clone, PartialEq, Eq)]
pub struct UserView {
    pub id: i32,
    pub name: String,
    pub icon_path: String,
}

/// A name-search hit with the relation between the searcher and the hit.
#[derive(Debug, Clone, PartialEq, Eq)]
pub struct SearchUser {
    pub id: i32,
    pub name: String,
    pub icon_path: String,
    /// The searcher has sent a request to this user.
    pub applied: bool,
    /// This user has sent a request to the searcher.
    pub requested: bool,
}

/// The users who sent a request to someone, split by whether it was returned.
#[derive(Debug, Clone, PartialEq, Eq)]
pub struct FriendList {
    pub one_side: Vec<UserView>,
    pub mutual: Vec<UserView>,
}

/// A user code, six decimal digits.
#[derive(Debug, Clone, PartialEq, Eq)]
pub struct UserId {
    pub id: String,
}

} // verus!
