//! Rows of the storage behind the service, as plain values. Points in time
//! are held as the text that storage gives for them.

use vstd::prelude::*;

verus! {

/// The identity of the caller, as the bearer token names it.
#[derive(Debug, Clone, PartialEq, Eq)]
pub struct UserId(pub String);

#[derive(Clone, Debug, PartialEq, Eq)]
pub struct UserModel {
    pub id: String,
    pub name: String,
    pub password: String,
}

#[derive(Clone, Debug, PartialEq, Eq)]
pub struct DocumentModel {
    pub id: i32,
    pub content: Option<String>,
    pub created_date: String,
    pub project_id: i32,
    pub created_by_id: Option<String>,
    pub last_editor_id: Option<String>,
    pub title: String,
    pub last_editing: String,
    pub uid: String,
    pub color: Option<String>,
}

#[derive(Clone, Debug, PartialEq, Eq)]
pub struct SheetModel {
    pub id: i32,
    pub content: Option<String>,
    pub uid: String,
    pub color: Option<String>,
    pub created_date: String,
    pub last_editing: String,
    pub project_id: i32,
    pub title: String,
    pub document_id: i32,
    pub created_by_id: Option<String>,
    pub last_editor_id: Option<String>,
}

#[derive(Clone, Debug, PartialEq, Eq)]
pub struct TagModel {
    pub id: i32,
    pub title: String,
    pub primary: i8,
    pub color: Option<String>,
    pub project_id: Option<i32>,
    pub created_by_id: Option<String>,
}

#[derive(Clone, Debug, PartialEq, Eq)]
pub struct FilesTagModel {
    pub file_id: String,
    pub tag_id: i32,
}

#[derive(Clone, Debug, PartialEq, Eq)]
pub struct BlueprintTagModel {
    pub blueprint_id: i32,
    pub tag_id: i32,
}

#[derive(Clone, Debug, PartialEq, Eq)]
pub struct DocumentTagModel {
    pub document_id: i32,
    pub tag_id: i32,
}

#[derive(Clone, Debug, PartialEq, Eq)]
pub struct NodeTagModel {
    pub node_id: i32,
    pub tag_id: i32,
}

#[derive(Clone, Debug, PartialEq, Eq)]
pub struct ProjectUsersUserModel {
    pub project_id: i32,
    pub user_id: String,
}

/// The side of a child node at which a relationship ends.
#[derive(Debug, Clone, PartialEq, Eq)]
pub enum ChildPole {
    N,
    S,
    E,
    W,
}

/// The side of a parent node at which a relationship starts.
#[derive(Debug, Clone, PartialEq, Eq)]
pub enum ParentPole {
    N,
    S,
    E,
    W,
}

/// How a relationship is drawn.
#[derive(Debug, Clone, PartialEq, Eq)]
pub enum Type {
    Direct,
    Loopback,
}

#[derive(Clone, Debug, PartialEq, Eq)]
pub struct RelationshipModel {
    pub id: i32,
    pub parent_id: i32,
    pub child_id: i32,
    pub blueprint_id: Option<i32>,
    pub parent_pole: ParentPole,
    pub child_pole: ChildPole,
    pub kind: Type,
}

} // verus!
