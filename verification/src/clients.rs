use vstd::prelude::*;

verus! {

/// A stored client row. The server assigns `id` and the timestamps;
/// the caller supplies the rest. `passport_data` carries the
/// semi-structured blob as its serialized text, which this library
/// never looks inside. Timestamps are seconds since the Unix epoch.
#[derive(Debug, PartialEq)]
pub struct Client {
    pub id: i32,
    pub first_name: String,
    pub last_name: String,
    pub email: Option<String>,
    pub phone: Option<String>,
    pub passport_data: Option<String>,
    pub created_at: Option<i64>,
    pub updated_at: Option<i64>,
}

/// The caller-supplied fields for creating, or fully replacing, a
/// client.
#[derive(Debug)]
pub struct CreateClient {
    pub first_name: String,
    pub last_name: String,
    pub email: Option<String>,
    pub phone: Option<String>,
    pub passport_data: Option<String>,
}

impl CreateClient {
    /// The required text fields are present (non-empty).
    pub open spec fn valid(self) -> bool {
        self.first_name@.len() > 0 && self.last_name@.len() > 0
    }

    pub fn is_valid(&self) -> (r: bool)
        ensures
            r == self.valid(),
    {
        !self.first_name.as_str().is_empty() && !self.last_name.as_str().is_empty()
    }
}

/// The row that a create request persists: the input's fields, the
/// server-assigned id, and both timestamps set to creation time.
pub open spec fn client_of_input(input: CreateClient, id: i32, now: i64) -> Client {
    Client {
        id,
        first_name: input.first_name,
        last_name: input.last_name,
        email: input.email,
        phone: input.phone,
        passport_data: input.passport_data,
        created_at: Some(now),
        updated_at: Some(now),
    }
}

/// Full replacement of a row's mutable fields; the id and the
/// timestamps keep their stored values.
pub open spec fn client_replaced(row: Client, input: CreateClient) -> Client {
    Client {
        id: row.id,
        first_name: input.first_name,
        last_name: input.last_name,
        email: input.email,
        phone: input.phone,
        passport_data: input.passport_data,
        created_at: row.created_at,
        updated_at: row.updated_at,
    }
}

pub(crate) fn clone_opt_string(o: &Option<String>) -> (r: Option<String>)
    ensures
        r == *o,
{
    match o {
        Some(s) => Some(s.clone()),
        None => None,
    }
}

impl Clone for Client {
    fn clone(&self) -> (r: Self)
        ensures
            r == *self,
    {
        Client {
            id: self.id,
            first_name: self.first_name.clone(),
            last_name: self.last_name.clone(),
            email: clone_opt_string(&self.email),
            phone: clone_opt_string(&self.phone),
            passport_data: clone_opt_string(&self.passport_data),
            created_at: self.created_at,
            updated_at: self.updated_at,
        }
    }
}

} // verus!
