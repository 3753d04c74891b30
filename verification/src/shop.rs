//! The catalog service: the product table, ordered by identity, and the
//! role-gated operations a dependent service runs after authorizing a
//! caller through the gateway.

use vstd::prelude::*;

use crate::errors::{Error, StoreError};
use crate::gateway::Client;
use crate::models::{role_ge, AccessLevel};

verus! {

/// A persisted catalog product.
#[derive(Debug)]
pub struct Product {
    pub id: i32,
    pub name: String,
    pub code: String,
    pub category: String,
}

/// A product as submitted for insertion.
#[derive(Debug)]
pub struct NewProduct {
    pub name: String,
    pub code: String,
    pub category: String,
}

/// The error payload the HTTP boundary reports.
#[derive(Debug)]
pub struct ApiError {
    pub error: String,
}

/// A paging query over the catalog.
#[derive(Debug)]
pub struct ListQuery {
    pub limit: Option<i64>,
    pub offset: Option<i64>,
}

/// Copies a product record field by field.
pub fn clone_product(p: &Product) -> (r: Product)
    ensures
        r == *p,
{
    Product {
        id: p.id,
        name: p.name.clone(),
        code: p.code.clone(),
        category: p.category.clone(),
    }
}

/// The row stored for a submission, under identity `id`.
pub open spec fn stored_product(p: NewProduct, id: i32) -> Product {
    Product { id, name: p.name, code: p.code, category: p.category }
}

pub open spec fn has_product_with_id(products: Seq<Product>, id: int) -> bool {
    exists|i: int| 0 <= i < products.len() && products[i].id == id
}

/// The index of the product with identity `id`; meaningful only when it
/// exists.
pub open spec fn product_index_with_id(products: Seq<Product>, id: int) -> int {
    choose|i: int| 0 <= i < products.len() && products[i].id == id
}

pub open spec fn product_with_id(products: Seq<Product>, id: int) -> Product {
    products[product_index_with_id(products, id)]
}

/// Products are kept strictly ordered by identity.
pub open spec fn products_sorted(products: Seq<Product>) -> bool {
    forall|i: int, j: int|
        0 <= i < j < products.len() ==> products[i].id < products[j].id
}

pub open spec fn products_bounded(products: Seq<Product>, next_id: int) -> bool {
    forall|i: int| 0 <= i < products.len() ==> products[i].id < next_id
}

/// Whether `i` is the position where a row with identity `id` belongs in
/// the ordered table: everything before it is smaller, everything from it
/// on larger.
pub open spec fn is_insert_position(products: Seq<Product>, id: int, i: int) -> bool {
    &&& 0 <= i <= products.len()
    &&& forall|j: int| 0 <= j < i ==> products[j].id < id
    &&& forall|j: int| i <= j < products.len() ==> products[j].id > id
}

/// The position where a row with identity `id` belongs in the ordered
/// table.
pub open spec fn spec_insert_position(products: Seq<Product>, id: int) -> int {
    choose|i: int| is_insert_position(products, id, i)
}

/// The window of `products` selected by a non-negative offset and limit.
pub open spec fn product_window(products: Seq<Product>, off: int, lim: int) -> Seq<Product> {
    let len = products.len() as int;
    let lo = if off <= len {
        off
    } else {
        len
    };
    let hi = if off + lim <= len {
        off + lim
    } else {
        len
    };
    products.subrange(lo, hi)
}

/// The in-memory product table.
pub struct ProductStore {
    pub products: Vec<Product>,
    pub next_id: i32,
}

impl ProductStore {
    /// Well-formedness: strictly ordered identities below the next free
    /// one.
    pub open spec fn wf(self) -> bool {
        &&& products_sorted(self.products@)
        &&& products_bounded(self.products@, self.next_id as int)
        &&& self.next_id >= 1
    }

    /// Creates an empty table.
    pub fn new() -> (r: ProductStore)
        ensures
            r.wf(),
            r.products@ == Seq::<Product>::empty(),
    {
        ProductStore { products: Vec::new(), next_id: 1 }
    }

    /// Inserts a product under a fresh identity and returns the stored
    /// row. Fails with `Internal` exactly when the identity space is
    /// exhausted.
    pub fn add_product(&mut self, new_product: NewProduct) -> (r: Result<Product, StoreError>)
        requires
            old(self).wf(),
        ensures
            final(self).wf(),
            (r matches Err(_)) <==> old(self).next_id == i32::MAX,
            r matches Err(e) ==> e == StoreError::Internal,
            r matches Err(_) ==> *final(self) == *old(self),
            r matches Ok(p) ==> p == stored_product(new_product, old(self).next_id)
                && final(self).products@ == old(self).products@.push(p) && final(self).next_id
                == old(self).next_id + 1,
    {
        if self.next_id == i32::MAX {
            return Err(StoreError::Internal);
        }
        let id = self.next_id;
        let row = Product {
            id,
            name: new_product.name,
            code: new_product.code,
            category: new_product.category,
        };
        let result = clone_product(&row);
        self.products.push(row);
        self.next_id = id + 1;
        Ok(result)
    }

    /// Inserts a whole batch under consecutive fresh identities, or
    /// nothing at all when the identity space cannot hold it. Skipping
    /// conflicting rows, as a backing table with a uniqueness constraint
    /// would, is a no-op here: identities are the only constrained column
    /// and every inserted one is fresh.
    pub fn add_products(&mut self, batch: &Vec<NewProduct>) -> (r: Result<(), StoreError>)
        requires
            old(self).wf(),
        ensures
            final(self).wf(),
            (r matches Err(_)) <==> i32::MAX - old(self).next_id < batch@.len(),
            r matches Err(e) ==> e == StoreError::Internal,
            r matches Err(_) ==> *final(self) == *old(self),
            r matches Ok(_) ==> final(self).products@.len() == old(self).products@.len()
                + batch@.len() && final(self).next_id == old(self).next_id + batch@.len(),
            r matches Ok(_) ==> forall|k: int|
                0 <= k < old(self).products@.len() ==> final(self).products@[k] == old(
                    self,
                ).products@[k],
            r matches Ok(_) ==> forall|k: int|
                0 <= k < batch@.len() ==> final(self).products@[old(self).products@.len() + k]
                    == stored_product(batch@[k], (old(self).next_id + k) as i32),
    {
        if ((i32::MAX - self.next_id) as u64) < batch.len() as u64 {
            return Err(StoreError::Internal);
        }
        let mut i: usize = 0;
        while i < batch.len()
            invariant
                old(self).wf(),
                0 <= i <= batch@.len(),
                batch@.len() <= i32::MAX - old(self).next_id,
                self.next_id == old(self).next_id + i,
                self.products@.len() == old(self).products@.len() + i,
                forall|k: int|
                    0 <= k < old(self).products@.len() ==> self.products@[k] == old(
                        self,
                    ).products@[k],
                forall|k: int|
                    0 <= k < i ==> self.products@[old(self).products@.len() + k]
                        == stored_product(batch@[k], (old(self).next_id + k) as i32),
                self.wf(),
            decreases batch@.len() - i,
        {
            let p = &batch[i];
            let row = Product {
                id: self.next_id,
                name: p.name.clone(),
                code: p.code.clone(),
                category: p.category.clone(),
            };
            self.products.push(row);
            self.next_id = self.next_id + 1;
            i = i + 1;
        }
        Ok(())
    }

    /// Looks a product up by identity; absence is not an error.
    pub fn get_product(&self, product_id: i32) -> (r: Result<Option<Product>, StoreError>)
        requires
            self.wf(),
        ensures
            match r {
                Ok(found) => (found matches Some(p) ==> has_product_with_id(
                    self.products@,
                    product_id as int,
                ) && p == product_with_id(self.products@, product_id as int)) && ((found
                    is None) <==> !has_product_with_id(self.products@, product_id as int)),
                Err(_) => false,
            },
    {
        let mut i: usize = 0;
        while i < self.products.len()
            invariant
                self.wf(),
                0 <= i <= self.products@.len(),
                forall|j: int| 0 <= j < i ==> self.products@[j].id != product_id,
            decreases self.products@.len() - i,
        {
            if self.products[i].id == product_id {
                proof {
                    let j = product_index_with_id(self.products@, product_id as int);
                    assert(0 <= j < self.products@.len() && self.products@[j].id == product_id);
                    assert(j == i as int);
                }
                return Ok(Some(clone_product(&self.products[i])));
            }
            i = i + 1;
        }
        Ok(None)
    }

    /// Upserts the row with identity `product_id`: an existing row is
    /// replaced in place, a missing one is inserted at its ordered
    /// position. Fails with `Internal` exactly when the identity cannot be
    /// accommodated.
    pub fn update_product(&mut self, product_id: i32, new_product: NewProduct) -> (r: Result<
        Product,
        StoreError,
    >)
        requires
            old(self).wf(),
        ensures
            final(self).wf(),
            (r matches Err(_)) <==> (!has_product_with_id(old(self).products@, product_id as int)
                && product_id == i32::MAX),
            r matches Err(e) ==> e == StoreError::Internal,
            r matches Err(_) ==> *final(self) == *old(self),
            r matches Ok(p) ==> p == stored_product(new_product, product_id),
            (r matches Ok(_) && has_product_with_id(old(self).products@, product_id as int))
                ==> final(self).products@ == old(self).products@.update(
                product_index_with_id(old(self).products@, product_id as int),
                stored_product(new_product, product_id),
            ) && final(self).next_id == old(self).next_id,
            (r matches Ok(_) && !has_product_with_id(old(self).products@, product_id as int))
                ==> final(self).products@ == old(self).products@.insert(
                spec_insert_position(old(self).products@, product_id as int),
                stored_product(new_product, product_id),
            ),
    {
        let row = Product {
            id: product_id,
            name: new_product.name.clone(),
            code: new_product.code.clone(),
            category: new_product.category.clone(),
        };
        let result = clone_product(&row);
        let mut i: usize = 0;
        while i < self.products.len()
            invariant
                *self == *old(self),
                old(self).wf(),
                row == stored_product(new_product, product_id),
                result == row,
                0 <= i <= self.products@.len(),
                forall|j: int| 0 <= j < i ==> self.products@[j].id < product_id,
            decreases self.products@.len() - i,
        {
            if self.products[i].id == product_id {
                proof {
                    let j = product_index_with_id(self.products@, product_id as int);
                    assert(0 <= j < self.products@.len() && self.products@[j].id == product_id);
                    assert(j == i as int);
                }
                let ghost pre = self.products@;
                self.products[i] = row;
                proof {
                    assert forall|a: int, b: int|
                        0 <= a < b < self.products@.len() implies self.products@[a].id < self
                        .products@[b].id by {
                        assert(pre[a].id < pre[b].id);
                    }
                }
                return Ok(result);
            }
            if self.products[i].id > product_id {
                proof {
                    assert forall|j: int|
                        i <= j < self.products@.len() implies self.products@[j].id
                        > product_id by {
                        if j > i {
                            assert(self.products@[i as int].id < self.products@[j].id);
                        }
                    }
                    lemma_insert_position_unique(self.products@, product_id as int, i as int);
                    assert(!has_product_with_id(self.products@, product_id as int));
                }
                if product_id == i32::MAX {
                    return Err(StoreError::Internal);
                }
                let ghost pre = self.products@;
                self.products.insert(i, row);
                if self.next_id <= product_id {
                    self.next_id = product_id + 1;
                }
                proof {
                    lemma_insert_sorted(pre, self.products@, i as int, row);
                    assert forall|k: int|
                        0 <= k < self.products@.len() implies self.products@[k].id < self.next_id
                         by {
                        pre.insert_ensures(i as int, row);
                        if k < i {
                            assert(self.products@[k] == pre[k]);
                        } else if k > i {
                            assert(self.products@[k] == pre[k - 1]);
                        }
                    }
                }
                return Ok(result);
            }
            i = i + 1;
        }
        proof {
            lemma_insert_position_unique(
                self.products@,
                product_id as int,
                self.products@.len() as int,
            );
            assert(!has_product_with_id(self.products@, product_id as int));
        }
        if product_id == i32::MAX {
            return Err(StoreError::Internal);
        }
        let at = self.products.len();
        let ghost pre = self.products@;
        self.products.insert(at, row);
        if self.next_id <= product_id {
            self.next_id = product_id + 1;
        }
        proof {
            lemma_insert_sorted(pre, self.products@, at as int, row);
            assert forall|k: int|
                0 <= k < self.products@.len() implies self.products@[k].id < self.next_id by {
                pre.insert_ensures(at as int, row);
                if k < at {
                    assert(self.products@[k] == pre[k]);
                }
            }
        }
        Ok(result)
    }

    /// Deletes the row with identity `product_id` and reports how many
    /// rows went away.
    pub fn remove_product(&mut self, product_id: i32) -> (r: Result<usize, StoreError>)
        requires
            old(self).wf(),
        ensures
            final(self).wf(),
            final(self).next_id == old(self).next_id,
            !has_product_with_id(old(self).products@, product_id as int) ==> ((r matches Ok(n)
                && n == 0) && *final(self) == *old(self)),
            has_product_with_id(old(self).products@, product_id as int) ==> ((r matches Ok(n)
                && n == 1) && final(self).products@ == old(self).products@.remove(
                product_index_with_id(old(self).products@, product_id as int),
            )),
    {
        let mut i: usize = 0;
        while i < self.products.len()
            invariant
                *self == *old(self),
                old(self).wf(),
                0 <= i <= self.products@.len(),
                forall|j: int| 0 <= j < i ==> self.products@[j].id != product_id,
            decreases self.products@.len() - i,
        {
            if self.products[i].id == product_id {
                proof {
                    let j = product_index_with_id(self.products@, product_id as int);
                    assert(0 <= j < self.products@.len() && self.products@[j].id == product_id);
                    assert(j == i as int);
                    self.products@.remove_ensures(i as int);
                }
                let _ = self.products.remove(i);
                return Ok(1);
            }
            i = i + 1;
        }
        Ok(0)
    }

    /// Lists products in identity order together with the total row
    /// count. Absent bounds default to the whole table; negative bounds
    /// are an infrastructure error.
    pub fn list_products(&self, query: ListQuery) -> (r: Result<(i64, Vec<Product>), StoreError>)
        requires
            self.wf(),
            self.products@.len() <= i64::MAX,
        ensures
            match r {
                Ok((count, page)) => count == self.products@.len() && spec_query_offset(query)
                    >= 0 && spec_query_limit(query) >= 0 && page@ == product_window(
                    self.products@,
                    spec_query_offset(query),
                    spec_query_limit(query),
                ),
                Err(e) => e == StoreError::Internal && (spec_query_offset(query) < 0
                    || spec_query_limit(query) < 0),
            },
    {
        let off_i64: i64 = match query.offset {
            Some(o) => o,
            None => 0,
        };
        let lim_i64: i64 = match query.limit {
            Some(l) => l,
            None => i64::MAX,
        };
        if off_i64 < 0 || lim_i64 < 0 {
            return Err(StoreError::Internal);
        }
        let len: usize = self.products.len();
        let lo: usize = if off_i64 as u64 >= len as u64 {
            len
        } else {
            off_i64 as usize
        };
        let end_wide: u128 = off_i64 as u128 + lim_i64 as u128;
        let hi: usize = if end_wide >= len as u128 {
            len
        } else {
            end_wide as usize
        };
        let mut out: Vec<Product> = Vec::new();
        proof {
            assert(self.products@.subrange(lo as int, lo as int) =~= Seq::<Product>::empty());
        }
        let mut i: usize = lo;
        while i < hi
            invariant
                lo <= i <= hi <= self.products@.len(),
                out@ == self.products@.subrange(lo as int, i as int),
            decreases hi - i,
        {
            out.push(clone_product(&self.products[i]));
            proof {
                assert(self.products@.subrange(lo as int, (i + 1) as int) =~= self
                    .products@.subrange(lo as int, i as int).push(self.products@[i as int]));
            }
            i = i + 1;
        }
        proof {
            assert(out@ =~= product_window(
                self.products@,
                spec_query_offset(query),
                spec_query_limit(query),
            ));
        }
        Ok((len as i64, out))
    }
}

/// The paging offset a query asks for; absent means `0`.
pub open spec fn spec_query_offset(query: ListQuery) -> int {
    match query.offset {
        Some(o) => o as int,
        None => 0,
    }
}

/// The paging limit a query asks for; absent means unbounded.
pub open spec fn spec_query_limit(query: ListQuery) -> int {
    match query.limit {
        Some(l) => l as int,
        None => i64::MAX as int,
    }
}

/// Inserting a row at its ordered position keeps the table ordered.
proof fn lemma_insert_sorted(pre: Seq<Product>, post: Seq<Product>, pos: int, row: Product)
    requires
        products_sorted(pre),
        is_insert_position(pre, row.id as int, pos),
        post == pre.insert(pos, row),
    ensures
        products_sorted(post),
{
    pre.insert_ensures(pos, row);
    assert forall|a: int, b: int| 0 <= a < b < post.len() implies post[a].id < post[b].id by {
        if a < pos {
            assert(post[a] == pre[a]);
        } else if a == pos {
            assert(post[a] == row);
        } else {
            assert(post[a] == pre[a - 1]);
        }
        if b < pos {
            assert(post[b] == pre[b]);
        } else if b == pos {
            assert(post[b] == row);
        } else {
            assert(post[b] == pre[b - 1]);
        }
    }
}

/// In an ordered table there is exactly one position where a fresh
/// identity belongs.
proof fn lemma_insert_position_unique(products: Seq<Product>, id: int, witness: int)
    requires
        products_sorted(products),
        0 <= witness <= products.len(),
        forall|j: int| 0 <= j < witness ==> products[j].id < id,
        forall|j: int| witness <= j < products.len() ==> products[j].id > id,
    ensures
        spec_insert_position(products, id) == witness,
{
    assert(is_insert_position(products, id, witness));
    let c = spec_insert_position(products, id);
    assert(is_insert_position(products, id, c));
    if c < witness {
        assert(products[c].id > id);
        assert(products[c].id < id);
    }
    if witness < c {
        assert(products[witness].id > id);
        assert(products[witness].id < id);
    }
}

/// The catalog service: a handle on the authorization gateway; each call
/// is first turned into a role-carrying handler.
pub struct Service {
    pub auth: Client,
}

impl Service {
    pub fn new(auth: Client) -> (r: Service)
        ensures
            r.auth == auth,
    {
        Service { auth }
    }

    /// Turns a validation outcome into a handler acting under the granted
    /// role; a denied validation never reaches the catalog.
    pub fn handler_for(&self, granted: Option<AccessLevel>) -> (r: Result<ServiceHandler, Error>)
        ensures
            match r {
                Ok(h) => granted matches Some(role) && h.role == role,
                Err(e) => e == Error::Unauthorized && granted is None,
            },
    {
        match granted {
            Some(role) => Ok(ServiceHandler { role }),
            None => Err(Error::Unauthorized),
        }
    }
}

/// One authorized catalog call: the caller's role, gating each operation.
pub struct ServiceHandler {
    pub role: AccessLevel,
}

impl ServiceHandler {
    /// Fails with `Unauthorized` exactly when the caller's role is below
    /// `minimal_role`.
    pub fn assert_role(&self, minimal_role: AccessLevel) -> (r: Result<(), Error>)
        ensures
            (r matches Ok(_)) <==> role_ge(self.role, minimal_role),
            r matches Err(e) ==> e == Error::Unauthorized,
    {
        if crate::models::role_at_least(self.role, minimal_role) {
            Ok(())
        } else {
            Err(Error::Unauthorized)
        }
    }

    /// Inserts a product; requires the `Admin` role.
    pub fn add_product(&self, store: &mut ProductStore, new_product: NewProduct) -> (r: Result<
        Product,
        Error,
    >)
        requires
            old(store).wf(),
        ensures
            final(store).wf(),
            !role_ge(self.role, AccessLevel::Admin) ==> (r matches Err(e) && e
                == Error::Unauthorized) && *final(store) == *old(store),
            role_ge(self.role, AccessLevel::Admin) ==> match r {
                Ok(p) => p == stored_product(new_product, old(store).next_id)
                    && final(store).products@ == old(store).products@.push(p),
                Err(e) => e == Error::StoreInternal && old(store).next_id == i32::MAX
                    && *final(store) == *old(store),
            },
    {
        if let Err(e) = self.assert_role(AccessLevel::Admin) {
            return Err(e);
        }
        match store.add_product(new_product) {
            Ok(p) => Ok(p),
            Err(_) => Err(Error::StoreInternal),
        }
    }

    /// Looks a product up; requires the `User` role.
    pub fn get_product(&self, store: &ProductStore, product_id: i32) -> (r: Result<
        Option<Product>,
        Error,
    >)
        requires
            store.wf(),
        ensures
            match r {
                Ok(found) => ((found is None) <==> !has_product_with_id(
                    store.products@,
                    product_id as int,
                )) && (found matches Some(p) ==> p == product_with_id(
                    store.products@,
                    product_id as int,
                )),
                Err(_) => false,
            },
    {
        if let Err(e) = self.assert_role(AccessLevel::User) {
            return Err(e);
        }
        match store.get_product(product_id) {
            Ok(found) => Ok(found),
            Err(_) => Err(Error::StoreInternal),
        }
    }

    /// Upserts a product; requires the `Admin` role.
    pub fn update_product(&self, store: &mut ProductStore, product_id: i32, new_product:
        NewProduct) -> (r: Result<Product, Error>)
        requires
            old(store).wf(),
        ensures
            final(store).wf(),
            !role_ge(self.role, AccessLevel::Admin) ==> (r matches Err(e) && e
                == Error::Unauthorized) && *final(store) == *old(store),
            role_ge(self.role, AccessLevel::Admin) ==> match r {
                Ok(p) => p == stored_product(new_product, product_id),
                Err(e) => e == Error::StoreInternal && *final(store) == *old(store),
            },
            role_ge(self.role, AccessLevel::Admin) ==> ((r matches Err(_)) <==> (
            !has_product_with_id(old(store).products@, product_id as int) && product_id
                == i32::MAX)),
            (role_ge(self.role, AccessLevel::Admin) && (r matches Ok(_)) && has_product_with_id(
                old(store).products@,
                product_id as int,
            )) ==> final(store).products@ == old(store).products@.update(
                product_index_with_id(old(store).products@, product_id as int),
                stored_product(new_product, product_id),
            ),
            (role_ge(self.role, AccessLevel::Admin) && (r matches Ok(_)) && !has_product_with_id(
                old(store).products@,
                product_id as int,
            )) ==> final(store).products@ == old(store).products@.insert(
                spec_insert_position(old(store).products@, product_id as int),
                stored_product(new_product, product_id),
            ),
    {
        if let Err(e) = self.assert_role(AccessLevel::Admin) {
            return Err(e);
        }
        match store.update_product(product_id, new_product) {
            Ok(p) => Ok(p),
            Err(_) => Err(Error::StoreInternal),
        }
    }

    /// Deletes a product; requires the `Admin` role.
    pub fn remove_product(&self, store: &mut ProductStore, product_id: i32) -> (r: Result<
        usize,
        Error,
    >)
        requires
            old(store).wf(),
        ensures
            final(store).wf(),
            !role_ge(self.role, AccessLevel::Admin) ==> (r matches Err(e) && e
                == Error::Unauthorized) && *final(store) == *old(store),
            role_ge(self.role, AccessLevel::Admin) ==> ((r matches Ok(n) && n == (
            if has_product_with_id(old(store).products@, product_id as int) {
                1int
            } else {
                0int
            }))),
            (role_ge(self.role, AccessLevel::Admin) && has_product_with_id(
                old(store).products@,
                product_id as int,
            )) ==> final(store).products@ == old(store).products@.remove(
                product_index_with_id(old(store).products@, product_id as int),
            ),
            (role_ge(self.role, AccessLevel::Admin) && !has_product_with_id(
                old(store).products@,
                product_id as int,
            )) ==> *final(store) == *old(store),
    {
        if let Err(e) = self.assert_role(AccessLevel::Admin) {
            return Err(e);
        }
        match store.remove_product(product_id) {
            Ok(n) => Ok(n),
            Err(_) => Err(Error::StoreInternal),
        }
    }

    /// Lists products with the total count; requires the `User` role.
    pub fn list_products(&self, store: &ProductStore, query: ListQuery) -> (r: Result<
        (i64, Vec<Product>),
        Error,
    >)
        requires
            store.wf(),
            store.products@.len() <= i64::MAX,
        ensures
            match r {
                Ok((count, page)) => count == store.products@.len() && page@ == product_window(
                    store.products@,
                    spec_query_offset(query),
                    spec_query_limit(query),
                ),
                Err(e) => e == Error::StoreInternal && (spec_query_offset(query) < 0
                    || spec_query_limit(query) < 0),
            },
    {
        if let Err(e) = self.assert_role(AccessLevel::User) {
            return Err(e);
        }
        match store.list_products(query) {
            Ok(page) => Ok(page),
            Err(_) => Err(Error::StoreInternal),
        }
    }
}

/// The boundary's verdict on a deletion: removing no row is reported as
/// the product not being found.
pub fn delete_response(removed: usize) -> (r: Result<(), Error>)
    ensures
        (r matches Ok(_)) <==> removed > 0,
        r matches Err(e) ==> e == Error::NotFound,
{
    if removed > 0 {
        Ok(())
    } else {
        Err(Error::NotFound)
    }
}

/// The boundary's verdict on a lookup: an absent product is reported as
/// not found.
pub fn found_response(found: Option<Product>) -> (r: Result<Product, Error>)
    ensures
        match r {
            Ok(p) => found matches Some(q) && p == q,
            Err(e) => e == Error::NotFound && found is None,
        },
{
    match found {
        Some(p) => Ok(p),
        None => Err(Error::NotFound),
    }
}

/// The catalog's server handle.
pub struct Server {
    pub shop: Service,
}

impl Server {
    pub fn new(shop: Service) -> (r: Server)
        ensures
            r.shop == shop,
    {
        Server { shop }
    }
}

} // verus!
