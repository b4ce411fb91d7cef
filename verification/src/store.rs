use vstd::prelude::*;
use crate::clients::{client_of_input, client_replaced, Client, CreateClient};
use crate::deals::{commission_in_range, deal_of_input, spec_commission, CreateDeal, Deal, DealStatus};

verus! {

/// How a request can fail, mirroring the error taxonomy of the
/// service: a lookup target that is absent, a missing required input
/// field, and the one referential-integrity rule the persistence layer
/// enforces (a deal must reference an existing client).
#[derive(Clone, Copy, PartialEq, Eq, Structural, Debug)]
pub enum ApiError {
    /// No row carries the requested id.
    NotFound(i32),
    /// A required text field of the input is empty.
    Validation,
    /// The write references a client id that no row carries.
    ForeignKey(i32),
}

pub open spec fn client_ids_wf(s: Seq<Client>, next: int) -> bool {
    &&& forall|j: int| 0 <= j < s.len() ==> 1 <= (#[trigger] s[j]).id < next
    &&& forall|j: int, k: int| 0 <= j < k < s.len() ==> (#[trigger] s[j]).id < (#[trigger] s[k]).id
}

pub open spec fn deal_ids_wf(s: Seq<Deal>, next: int) -> bool {
    &&& forall|j: int| 0 <= j < s.len() ==> 1 <= (#[trigger] s[j]).id < next
    &&& forall|j: int, k: int| 0 <= j < k < s.len() ==> (#[trigger] s[j]).id < (#[trigger] s[k]).id
}

pub open spec fn client_has_id(s: Seq<Client>, id: int) -> bool {
    exists|j: int| 0 <= j < s.len() && (#[trigger] s[j]).id == id
}

pub open spec fn deal_has_id(s: Seq<Deal>, id: int) -> bool {
    exists|j: int| 0 <= j < s.len() && (#[trigger] s[j]).id == id
}

/// Some row carries `id`, and every row that does is exactly `c`.
pub open spec fn client_found_exactly(s: Seq<Client>, id: int, c: Client) -> bool {
    &&& client_has_id(s, id)
    &&& forall|j: int| 0 <= j < s.len() && (#[trigger] s[j]).id == id ==> s[j] == c
}

/// Some row carries `id`, and every row that does is exactly `d`.
pub open spec fn deal_found_exactly(s: Seq<Deal>, id: int, d: Deal) -> bool {
    &&& deal_has_id(s, id)
    &&& forall|j: int| 0 <= j < s.len() && (#[trigger] s[j]).id == id ==> s[j] == d
}

pub open spec fn client_ids_nondecreasing(s: Seq<Client>) -> bool {
    forall|j: int, k: int| 0 <= j <= k < s.len() ==> (#[trigger] s[j]).id <= (#[trigger] s[k]).id
}

pub open spec fn deal_ids_nondecreasing(s: Seq<Deal>) -> bool {
    forall|j: int, k: int| 0 <= j <= k < s.len() ==> (#[trigger] s[j]).id <= (#[trigger] s[k]).id
}

/// The persistence model: the two tables, each ordered by its
/// server-assigned id, and the next id each table will issue.
pub struct Db {
    client_rows: Vec<Client>,
    deal_rows: Vec<Deal>,
    next_client: i32,
    next_deal: i32,
}

impl Db {
    pub closed spec fn clients(&self) -> Seq<Client> {
        self.client_rows@
    }

    pub closed spec fn deals(&self) -> Seq<Deal> {
        self.deal_rows@
    }

    pub closed spec fn next_client_id(&self) -> int {
        self.next_client as int
    }

    pub closed spec fn next_deal_id(&self) -> int {
        self.next_deal as int
    }

    /// Well-formedness: ids are issued in order starting at 1, so each
    /// table is strictly increasing in id and every stored id lies
    /// below the next one to be issued.
    pub open spec fn inv(&self) -> bool {
        &&& client_ids_wf(self.clients(), self.next_client_id())
        &&& deal_ids_wf(self.deals(), self.next_deal_id())
        &&& 1 <= self.next_client_id() <= i32::MAX as int
        &&& 1 <= self.next_deal_id() <= i32::MAX as int
    }

    /// An empty store that has issued no id yet.
    pub fn new() -> (r: Db)
        ensures
            r.inv(),
            r.clients() == Seq::<Client>::empty(),
            r.deals() == Seq::<Deal>::empty(),
            r.next_client_id() == 1,
            r.next_deal_id() == 1,
    {
        Db { client_rows: Vec::new(), deal_rows: Vec::new(), next_client: 1, next_deal: 1 }
    }

    /// Whether the client table can still issue an id, which a create
    /// needs.
    pub fn can_create_client(&self) -> (r: bool)
        ensures
            r == (self.next_client_id() < i32::MAX as int),
    {
        self.next_client < i32::MAX
    }

    /// Whether the deal table can still issue an id, which a create
    /// needs.
    pub fn can_create_deal(&self) -> (r: bool)
        ensures
            r == (self.next_deal_id() < i32::MAX as int),
    {
        self.next_deal < i32::MAX
    }

    /// All client rows, in non-decreasing id order.
    #[verifier::loop_isolation(false)]
    pub fn get_clients(&self) -> (r: Vec<Client>)
        requires
            self.inv(),
        ensures
            r@ == self.clients(),
            client_ids_nondecreasing(r@),
    {
        let mut out: Vec<Client> = Vec::new();
        let mut i: usize = 0;
        while i < self.client_rows.len()
            invariant
                i <= self.client_rows.len(),
                out@ == self.clients().take(i as int),
            decreases self.client_rows.len() - i,
        {
            out.push(self.client_rows[i].clone());
            proof {
                assert(self.clients().take(i + 1) =~= self.clients().take(i as int).push(
                    self.clients()[i as int],
                ));
            }
            i = i + 1;
        }
        proof {
            assert(out@ =~= self.clients());
            assert forall|j: int, k: int|
                0 <= j <= k < self.clients().len() implies (#[trigger] self.clients()[j]).id <= (
            #[trigger] self.clients()[k]).id by {
                if j < k {
                    assert(self.clients()[j].id < self.clients()[k].id);
                }
            }
        }
        out
    }

    /// All deal rows, in non-decreasing id order.
    #[verifier::loop_isolation(false)]
    pub fn get_deals(&self) -> (r: Vec<Deal>)
        requires
            self.inv(),
        ensures
            r@ == self.deals(),
            deal_ids_nondecreasing(r@),
    {
        let mut out: Vec<Deal> = Vec::new();
        let mut i: usize = 0;
        while i < self.deal_rows.len()
            invariant
                i <= self.deal_rows.len(),
                out@ == self.deals().take(i as int),
            decreases self.deal_rows.len() - i,
        {
            out.push(self.deal_rows[i].clone());
            proof {
                assert(self.deals().take(i + 1) =~= self.deals().take(i as int).push(
                    self.deals()[i as int],
                ));
            }
            i = i + 1;
        }
        proof {
            assert(out@ =~= self.deals());
            assert forall|j: int, k: int|
                0 <= j <= k < self.deals().len() implies (#[trigger] self.deals()[j]).id <= (
            #[trigger] self.deals()[k]).id by {
                if j < k {
                    assert(self.deals()[j].id < self.deals()[k].id);
                }
            }
        }
        out
    }

    /// Inserts a new client row. The input is rejected when a required
    /// text field is empty; otherwise the row is persisted under the
    /// next issued id, with both timestamps set to creation time, and
    /// returned in full.
    pub fn create_client(&mut self, input: CreateClient, now: i64) -> (r: Result<
        Client,
        ApiError,
    >)
        requires
            old(self).inv(),
            old(self).next_client_id() < i32::MAX as int,
        ensures
            final(self).inv(),
            final(self).deals() == old(self).deals(),
            final(self).next_deal_id() == old(self).next_deal_id(),
            match r {
                Ok(c) => {
                    &&& input.valid()
                    &&& c == client_of_input(input, old(self).next_client_id() as i32, now)
                    &&& final(self).clients() == old(self).clients().push(c)
                    &&& final(self).next_client_id() == old(self).next_client_id() + 1
                    &&& client_found_exactly(final(self).clients(), c.id as int, c)
                },
                Err(e) => {
                    &&& e == ApiError::Validation
                    &&& !input.valid()
                    &&& *final(self) == *old(self)
                },
            },
    {
        if !input.is_valid() {
            return Err(ApiError::Validation);
        }
        let id = self.next_client;
        let row = Client {
            id,
            first_name: input.first_name,
            last_name: input.last_name,
            email: input.email,
            phone: input.phone,
            passport_data: input.passport_data,
            created_at: Some(now),
            updated_at: Some(now),
        };
        let out = row.clone();
        self.client_rows.push(row);
        self.next_client = id + 1;
        proof {
            let s = old(self).clients();
            let s2 = self.clients();
            assert(s2 == s.push(out));
            assert forall|j: int| 0 <= j < s2.len() implies 1 <= (#[trigger] s2[j]).id
                < self.next_client_id() by {
                if j < s.len() {
                    assert(s2[j] == s[j]);
                }
            }
            assert forall|j: int, k: int| 0 <= j < k < s2.len() implies (#[trigger] s2[j]).id < (
            #[trigger] s2[k]).id by {
                if k < s.len() {
                    assert(s2[j] == s[j] && s2[k] == s[k]);
                } else {
                    assert(s2[k] == out && s2[j] == s[j]);
                }
            }
            assert(s2[s.len() as int].id == out.id);
            assert forall|j: int|
                0 <= j < s2.len() && (#[trigger] s2[j]).id == out.id as int implies s2[j] == out by {
                if j < s.len() {
                    assert(s[j].id < old(self).next_client_id());
                }
            }
        }
        Ok(out)
    }

    /// The client row carrying `id`, or a not-found outcome when no row
    /// does.
    #[verifier::loop_isolation(false)]
    pub fn get_client(&self, id: i32) -> (r: Result<Client, ApiError>)
        requires
            self.inv(),
        ensures
            match r {
                Ok(c) => c.id == id && client_found_exactly(self.clients(), id as int, c),
                Err(e) => e == ApiError::NotFound(id) && !client_has_id(
                    self.clients(),
                    id as int,
                ),
            },
    {
        let n = self.client_rows.len();
        let mut i: usize = 0;
        while i < n
            invariant
                i <= n,
                forall|j: int| 0 <= j < i ==> (#[trigger] self.clients()[j]).id != id,
            decreases n - i,
        {
            if self.client_rows[i].id == id {
                let c = self.client_rows[i].clone();
                proof {
                    assert forall|j: int|
                        0 <= j < self.clients().len() && (#[trigger] self.clients()[j]).id
                            == id as int implies self.clients()[j] == c by {
                        if j < i as int {
                            assert(self.clients()[j].id != id);
                        } else if j > i as int {
                            assert(self.clients()[i as int].id < self.clients()[j].id);
                        }
                    }
                }
                return Ok(c);
            }
            i = i + 1;
        }
        Err(ApiError::NotFound(id))
    }

    /// The deal row carrying `id`, or a not-found outcome when no row
    /// does.
    #[verifier::loop_isolation(false)]
    pub fn get_deal(&self, id: i32) -> (r: Result<Deal, ApiError>)
        requires
            self.inv(),
        ensures
            match r {
                Ok(d) => d.id == id && deal_found_exactly(self.deals(), id as int, d),
                Err(e) => e == ApiError::NotFound(id) && !deal_has_id(self.deals(), id as int),
            },
    {
        let n = self.deal_rows.len();
        let mut i: usize = 0;
        while i < n
            invariant
                i <= n,
                forall|j: int| 0 <= j < i ==> (#[trigger] self.deals()[j]).id != id,
            decreases n - i,
        {
            if self.deal_rows[i].id == id {
                let d = self.deal_rows[i].clone();
                proof {
                    assert forall|j: int|
                        0 <= j < self.deals().len() && (#[trigger] self.deals()[j]).id
                            == id as int implies self.deals()[j] == d by {
                        if j < i as int {
                            assert(self.deals()[j].id != id);
                        } else if j > i as int {
                            assert(self.deals()[i as int].id < self.deals()[j].id);
                        }
                    }
                }
                return Ok(d);
            }
            i = i + 1;
        }
        Err(ApiError::NotFound(id))
    }

    /// Fully replaces the mutable fields of the client row carrying
    /// `id` with the input's values, keeping the id and the stored
    /// timestamps, and returns the updated row; a not-found outcome
    /// when no row carries `id`.
    #[verifier::loop_isolation(false)]
    pub fn update_client(&mut self, id: i32, input: CreateClient) -> (r: Result<Client, ApiError>)
        requires
            old(self).inv(),
        ensures
            final(self).inv(),
            final(self).deals() == old(self).deals(),
            final(self).next_client_id() == old(self).next_client_id(),
            final(self).next_deal_id() == old(self).next_deal_id(),
            match r {
                Ok(c) => {
                    &&& (exists|j: int|
                        {
                            &&& 0 <= j < old(self).clients().len()
                            &&& (#[trigger] old(self).clients()[j]).id == id
                            &&& c == client_replaced(old(self).clients()[j], input)
                            &&& final(self).clients() == old(self).clients().update(j, c)
                        })
                    &&& client_found_exactly(final(self).clients(), id as int, c)
                },
                Err(e) => {
                    &&& e == ApiError::NotFound(id)
                    &&& !client_has_id(old(self).clients(), id as int)
                    &&& *final(self) == *old(self)
                },
            },
    {
        let n = self.client_rows.len();
        let mut i: usize = 0;
        while i < n
            invariant
                i <= n,
                *self == *old(self),
                n == self.client_rows.len(),
                forall|j: int| 0 <= j < i ==> (#[trigger] self.clients()[j]).id != id,
            decreases n - i,
        {
            if self.client_rows[i].id == id {
                let created_at = self.client_rows[i].created_at;
                let updated_at = self.client_rows[i].updated_at;
                let row = Client {
                    id,
                    first_name: input.first_name,
                    last_name: input.last_name,
                    email: input.email,
                    phone: input.phone,
                    passport_data: input.passport_data,
                    created_at,
                    updated_at,
                };
                let out = row.clone();
                let ghost s = self.clients();
                self.client_rows.remove(i);
                self.client_rows.insert(i, row);
                proof {
                    let s2 = self.clients();
                    assert(s2 =~= s.update(i as int, out));
                    assert forall|x: int| 0 <= x < s2.len() implies (#[trigger] s2[x]).id == s[x].id
                        by {}
                    assert forall|x: int, y: int| 0 <= x < y < s2.len() implies (
                    #[trigger] s2[x]).id < (#[trigger] s2[y]).id by {
                        assert(s[x].id < s[y].id);
                    }
                    assert forall|x: int| 0 <= x < s2.len() implies 1 <= (#[trigger] s2[x]).id
                        < self.next_client_id() by {
                        assert(1 <= s[x].id < self.next_client_id());
                    }
                    assert(out == client_replaced(s[i as int], input));
                    assert(s2[i as int] == out);
                    assert forall|j: int|
                        0 <= j < s2.len() && (#[trigger] s2[j]).id == id as int implies s2[j]
                        == out by {
                        if j < i as int {
                            assert(s[j].id != id);
                        } else if j > i as int {
                            assert(s[i as int].id < s[j].id);
                        }
                    }
                }
                return Ok(out);
            }
            i = i + 1;
        }
        Err(ApiError::NotFound(id))
    }

    /// Removes the client row carrying `id`; a not-found outcome when
    /// no row does. After the removal no row carries `id` any more.
    #[verifier::loop_isolation(false)]
    pub fn delete_client(&mut self, id: i32) -> (r: Result<(), ApiError>)
        requires
            old(self).inv(),
        ensures
            final(self).inv(),
            final(self).deals() == old(self).deals(),
            final(self).next_client_id() == old(self).next_client_id(),
            final(self).next_deal_id() == old(self).next_deal_id(),
            match r {
                Ok(u) => {
                    &&& client_has_id(old(self).clients(), id as int)
                    &&& (exists|j: int|
                        {
                            &&& 0 <= j < old(self).clients().len()
                            &&& (#[trigger] old(self).clients()[j]).id == id
                            &&& final(self).clients() == old(self).clients().remove(j)
                        })
                    &&& !client_has_id(final(self).clients(), id as int)
                },
                Err(e) => {
                    &&& e == ApiError::NotFound(id)
                    &&& !client_has_id(old(self).clients(), id as int)
                    &&& *final(self) == *old(self)
                },
            },
    {
        let n = self.client_rows.len();
        let mut i: usize = 0;
        while i < n
            invariant
                i <= n,
                *self == *old(self),
                n == self.client_rows.len(),
                forall|j: int| 0 <= j < i ==> (#[trigger] self.clients()[j]).id != id,
            decreases n - i,
        {
            if self.client_rows[i].id == id {
                let ghost s = self.clients();
                self.client_rows.remove(i);
                proof {
                    let s2 = self.clients();
                    assert(s2 == s.remove(i as int));
                    assert forall|x: int| 0 <= x < s2.len() implies s2[x] == s[(
                    if x < i as int {
                        x
                    } else {
                        x + 1
                    })] by {}
                    assert forall|x: int, y: int| 0 <= x < y < s2.len() implies (
                    #[trigger] s2[x]).id < (#[trigger] s2[y]).id by {
                        let x0 = if x < i as int { x } else { x + 1 };
                        let y0 = if y < i as int { y } else { y + 1 };
                        assert(s2[x] == s[x0] && s2[y] == s[y0]);
                        assert(s[x0].id < s[y0].id);
                    }
                    assert forall|x: int| 0 <= x < s2.len() implies 1 <= (#[trigger] s2[x]).id
                        < self.next_client_id() by {
                        let x0 = if x < i as int { x } else { x + 1 };
                        assert(s2[x] == s[x0]);
                    }
                    assert forall|x: int| 0 <= x < s2.len() implies (#[trigger] s2[x]).id
                        != id as int by {
                        let x0 = if x < i as int { x } else { x + 1 };
                        assert(s2[x] == s[x0]);
                        if x0 < i as int {
                            assert(s[x0].id < s[i as int].id);
                        } else if x0 > i as int {
                            assert(s[i as int].id < s[x0].id);
                        }
                    }
                }
                return Ok(());
            }
            i = i + 1;
        }
        Err(ApiError::NotFound(id))
    }

    /// Whether some client row carries `id`.
    #[verifier::loop_isolation(false)]
    fn client_exists(&self, id: i32) -> (r: bool)
        ensures
            r == client_has_id(self.clients(), id as int),
    {
        let n = self.client_rows.len();
        let mut i: usize = 0;
        while i < n
            invariant
                i <= n,
                forall|j: int| 0 <= j < i ==> (#[trigger] self.clients()[j]).id != id,
            decreases n - i,
        {
            if self.client_rows[i].id == id {
                return true;
            }
            i = i + 1;
        }
        false
    }

    /// Inserts a new deal row: the status defaults to `Draft` when the
    /// input names none, and the commission is computed server-side
    /// from the amount and the percent. The write is rejected when the
    /// referenced client does not exist, which is the one
    /// referential-integrity rule the persistence layer enforces.
    pub fn create_deal(&mut self, input: CreateDeal, now: i64) -> (r: Result<Deal, ApiError>)
        requires
            old(self).inv(),
            old(self).next_deal_id() < i32::MAX as int,
            commission_in_range(input.deal_amount as int, input.commission_percent as int),
        ensures
            final(self).inv(),
            final(self).clients() == old(self).clients(),
            final(self).next_client_id() == old(self).next_client_id(),
            match r {
                Ok(d) => {
                    &&& client_has_id(old(self).clients(), input.client_id as int)
                    &&& d == deal_of_input(input, old(self).next_deal_id() as i32, now)
                    &&& d.commission_amount as int == spec_commission(
                        input.deal_amount as int,
                        input.commission_percent as int,
                    )
                    &&& (input.status is None ==> d.status == DealStatus::Draft)
                    &&& final(self).deals() == old(self).deals().push(d)
                    &&& final(self).next_deal_id() == old(self).next_deal_id() + 1
                    &&& deal_found_exactly(final(self).deals(), d.id as int, d)
                },
                Err(e) => {
                    &&& e == ApiError::ForeignKey(input.client_id)
                    &&& !client_has_id(old(self).clients(), input.client_id as int)
                    &&& *final(self) == *old(self)
                },
            },
    {
        if !self.client_exists(input.client_id) {
            return Err(ApiError::ForeignKey(input.client_id));
        }
        let commission_amount = input.calculate_commission();
        let id = self.next_deal;
        let status = match input.status {
            Some(s) => s,
            None => DealStatus::Draft,
        };
        let row = Deal {
            id,
            client_id: input.client_id,
            deal_amount: input.deal_amount,
            commission_percent: input.commission_percent,
            commission_amount,
            tour_operator: input.tour_operator,
            deal_date: input.deal_date,
            payment_due_date: input.payment_due_date,
            status,
            description: input.description,
            created_at: Some(now),
            updated_at: Some(now),
        };
        let out = row.clone();
        self.deal_rows.push(row);
        self.next_deal = id + 1;
        proof {
            let s = old(self).deals();
            let s2 = self.deals();
            assert(s2 == s.push(out));
            assert forall|j: int| 0 <= j < s2.len() implies 1 <= (#[trigger] s2[j]).id
                < self.next_deal_id() by {
                if j < s.len() {
                    assert(s2[j] == s[j]);
                }
            }
            assert forall|j: int, k: int| 0 <= j < k < s2.len() implies (#[trigger] s2[j]).id < (
            #[trigger] s2[k]).id by {
                if k < s.len() {
                    assert(s2[j] == s[j] && s2[k] == s[k]);
                } else {
                    assert(s2[k] == out && s2[j] == s[j]);
                }
            }
            assert(s2[s.len() as int].id == out.id);
            assert forall|j: int|
                0 <= j < s2.len() && (#[trigger] s2[j]).id == out.id as int implies s2[j] == out by {
                if j < s.len() {
                    assert(s[j].id < old(self).next_deal_id());
                }
            }
        }
        Ok(out)
    }
}

/// Law: creating a client from a valid input and then fetching by the
/// returned id yields exactly the created record, equal to the input in
/// every caller-supplied field.
pub proof fn lemma_create_then_get_client(db: Db, input: CreateClient, now: i64)
    requires
        db.inv(),
        db.next_client_id() < i32::MAX as int,
    ensures
        ({
            let c = client_of_input(input, db.next_client_id() as i32, now);
            client_found_exactly(db.clients().push(c), c.id as int, c)
        }),
{
    let c = client_of_input(input, db.next_client_id() as i32, now);
    let s = db.clients();
    let s2 = s.push(c);
    assert(s2[s.len() as int] == c);
    assert forall|j: int| 0 <= j < s2.len() && (#[trigger] s2[j]).id == c.id as int implies s2[j]
        == c by {
        if j < s.len() {
            assert(s2[j] == s[j]);
            assert(s[j].id < db.next_client_id());
        }
    }
}

/// Law: fully replacing a client's mutable fields and re-fetching by
/// the same id yields exactly the replaced record: the new field values
/// and nothing of the old ones beyond the id and the timestamps.
pub proof fn lemma_update_then_get_client(db: Db, j: int, input: CreateClient)
    requires
        db.inv(),
        0 <= j < db.clients().len(),
    ensures
        ({
            let c = client_replaced(db.clients()[j], input);
            client_found_exactly(db.clients().update(j, c), c.id as int, c)
        }),
{
    let c = client_replaced(db.clients()[j], input);
    let s = db.clients();
    let s2 = s.update(j, c);
    assert(s2[j] == c);
    assert forall|x: int| 0 <= x < s2.len() && (#[trigger] s2[x]).id == c.id as int implies s2[x]
        == c by {
        if x < j {
            assert(s2[x] == s[x]);
            assert(s[x].id < s[j].id);
        } else if x > j {
            assert(s2[x] == s[x]);
            assert(s[j].id < s[x].id);
        }
    }
}

/// Law: after a client row is deleted, no row carries its id any more,
/// so a fetch by that id yields a not-found outcome.
pub proof fn lemma_delete_then_get_client(db: Db, j: int)
    requires
        db.inv(),
        0 <= j < db.clients().len(),
    ensures
        !client_has_id(db.clients().remove(j), db.clients()[j].id as int),
{
    let s = db.clients();
    let s2 = s.remove(j);
    assert forall|x: int| 0 <= x < s2.len() implies (#[trigger] s2[x]).id != s[j].id by {
        let x0 = if x < j { x } else { x + 1 };
        assert(s2[x] == s[x0]);
        if x0 < j {
            assert(s[x0].id < s[j].id);
        } else {
            assert(s[j].id < s[x0].id);
        }
    }
}

/// Law: a client id the store has never issued is not found; the
/// lookup is a clean not-found outcome, never a failure.
pub proof fn lemma_unissued_client_id_not_found(db: Db, id: int)
    requires
        db.inv(),
        !(1 <= id < db.next_client_id()),
    ensures
        !client_has_id(db.clients(), id),
{
}

/// Law: a deal id the store has never issued is not found; the lookup
/// is a clean not-found outcome, never a failure.
pub proof fn lemma_unissued_deal_id_not_found(db: Db, id: int)
    requires
        db.inv(),
        !(1 <= id < db.next_deal_id()),
    ensures
        !deal_has_id(db.deals(), id),
{
}

} // verus!
