//! Data types of the administrative API that the token manager gates:
//! request payloads and row shapes handed between the HTTP layer and the
//! policy store, plus the small parsing decisions taken on them. Transport,
//! routing and persistence of these values live outside this crate.

use vstd::prelude::*;

verus! {

/// Credentials presented at login.
pub struct LoginPayload {
    pub username: String,
    pub password: String,
}

/// One person row as the API returns it.
pub struct User {
    pub id: i32,
    pub username: String,
    pub name: String,
}

/// What it takes to create a person.
pub struct CreateUserPayload {
    pub username: String,
    pub password_hash: String,
    pub name: String,
    /// Natural or juridical person; see [`PersonType::parse`].
    pub person_type: String,
    /// Identity document kind; see [`DocumentType::parse`].
    pub document_type: String,
    pub document_number: String,
}

/// Partial update of a person; absent fields stay unchanged.
pub struct UpdateUserPayload {
    pub username: Option<String>,
    pub password_hash: Option<String>,
    pub name: Option<String>,
}

/// One service row as the API returns it.
pub struct Service {
    pub id: i32,
    pub name: String,
    pub description: Option<String>,
}

/// What it takes to create a service.
pub struct CreateServicePayload {
    pub name: String,
    pub description: Option<String>,
}

/// Partial update of a service; absent fields stay unchanged.
pub struct UpdateServicePayload {
    pub name: Option<String>,
    pub description: Option<String>,
}

/// One role row as the API returns it.
pub struct Role {
    pub id: i32,
    pub name: String,
}

/// What it takes to create a role.
pub struct CreateRolePayload {
    pub name: String,
}

/// A role rename.
pub struct UpdateRolePayload {
    pub name: String,
}

/// One permission row as the API returns it.
pub struct Permission {
    pub id: i32,
    pub name: String,
}

/// What it takes to create a permission.
pub struct CreatePermissionPayload {
    pub name: String,
}

/// A permission rename.
pub struct UpdatePermissionPayload {
    pub name: String,
}

/// Ties a permission to a role.
pub struct RolePermissionPayload {
    pub role_id: i32,
    pub permission_id: i32,
}

/// Ties a role to a service.
pub struct ServiceRolePayload {
    pub service_id: i32,
    pub role_id: i32,
}

/// Ties a person to a role within a service.
pub struct PersonServiceRolePayload {
    pub person_id: i32,
    pub service_id: i32,
    pub role_id: i32,
}

/// A permission check: does this person hold this permission in this
/// service?
pub struct CheckPermissionPayload {
    pub person_id: i32,
    pub service_id: i32,
    pub permission_name: String,
}

impl CheckPermissionPayload {
    /// The fallback a permission check takes when no request body parsed:
    /// assemble the payload from the route parameters, each already parsed
    /// to its type, and refuse the request when any of the three is missing.
    pub fn from_params(
        person_id: Option<i32>,
        service_id: Option<i32>,
        permission_name: Option<String>,
    ) -> (r: Option<CheckPermissionPayload>)
        ensures
            match r {
                Some(p) => {
                    &&& person_id == Some(p.person_id)
                    &&& service_id == Some(p.service_id)
                    &&& permission_name matches Some(name) && name@ == p.permission_name@
                },
                None => person_id is None || service_id is None || permission_name is None,
            },
    {
        match (person_id, service_id, permission_name) {
            (Some(person_id), Some(service_id), Some(permission_name)) => Some(
                CheckPermissionPayload { person_id, service_id, permission_name },
            ),
            _ => None,
        }
    }
}

/// Natural (`N`) or juridical (`J`) person.
#[derive(Clone, Copy, Debug, PartialEq, Eq, Structural)]
pub enum PersonType {
    N,
    J,
}

/// What [`PersonType::parse`] returns for a given tag.
pub open spec fn spec_parse_person_type(s: Seq<char>) -> PersonType {
    if s == "J"@ {
        PersonType::J
    } else {
        PersonType::N
    }
}

impl PersonType {
    /// Reads the uppercase tag the API uses; anything unrecognized falls
    /// back to a natural person.
    pub fn parse(s: &str) -> (r: PersonType)
        ensures
            r == spec_parse_person_type(s@),
    {
        let v = s.to_owned();
        if v == "J".to_owned() {
            PersonType::J
        } else {
            PersonType::N
        }
    }
}

/// The identity document kinds the API accepts.
#[derive(Clone, Copy, Debug, PartialEq, Eq, Structural)]
pub enum DocumentType {
    DNI,
    CE,
    RUC,
}

/// What [`DocumentType::parse`] returns for a given tag.
pub open spec fn spec_parse_document_type(s: Seq<char>) -> DocumentType {
    if s == "CE"@ {
        DocumentType::CE
    } else if s == "RUC"@ {
        DocumentType::RUC
    } else {
        DocumentType::DNI
    }
}

impl DocumentType {
    /// Reads the uppercase tag the API uses; anything unrecognized falls
    /// back to the national identity document.
    pub fn parse(s: &str) -> (r: DocumentType)
        ensures
            r == spec_parse_document_type(s@),
    {
        let v = s.to_owned();
        if v == "CE".to_owned() {
            DocumentType::CE
        } else if v == "RUC".to_owned() {
            DocumentType::RUC
        } else {
            DocumentType::DNI
        }
    }
}

} // verus!
