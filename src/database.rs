use vstd::prelude::*;

use crate::product::{
    average_of, has_name, is_average_of, lemma_push_keeps_names_unique,
    lemma_remove_keeps_names_unique, names_unique, AveragePrice, Product,
};

verus! {

/// Why a catalog operation was refused. A refused operation changes nothing.
#[derive(Clone, Copy, Debug, PartialEq, Eq, Structural)]
pub enum Errors {
    /// A product with the same name is already approved.
    DuplicateProduct,
    /// No approved product has the name given for removal.
    NoProductFoundToRemove,
    /// The position is past the end of the pending list.
    WrongIndex,
}

/// The catalog: approved products, proposals awaiting a decision, and the
/// mean price of the approved products.
pub struct Database {
    pub products: Vec<Product>,
    pub pending_products: Vec<Product>,
    pub average_price: AveragePrice,
}

impl Database {
    /// The catalog's consistency: the mean price matches the approved products
    /// and no two approved products share a name.
    pub open spec fn wf(&self) -> bool {
        &&& is_average_of(self.average_price, self.products@)
        &&& names_unique(self.products@)
    }

    /// Whether the catalog holds nothing.
    pub open spec fn is_empty_catalog(&self) -> bool {
        &&& self.products@.len() == 0
        &&& self.pending_products@.len() == 0
        &&& self.average_price == AveragePrice { total: 0, count: 0 }
    }
}

impl Default for Database {
    /// An empty catalog, as freshly allocated storage holds it.
    fn default() -> (r: Database)
        ensures
            r.is_empty_catalog(),
            r.wf(),
    {
        Database {
            products: Vec::new(),
            pending_products: Vec::new(),
            average_price: AveragePrice { total: 0, count: 0 },
        }
    }
}

/// Resets `database` to an empty catalog.
pub fn setup(database: &mut Database)
    ensures
        final(database).is_empty_catalog(),
        final(database).wf(),
{
    database.products = Vec::new();
    database.pending_products = Vec::new();
    database.average_price = AveragePrice { total: 0, count: 0 };
}

/// The position of the first product of `products` named `name`, if any.
fn find_product(products: &Vec<Product>, name: &String) -> (r: Option<usize>)
    ensures
        match r {
            Some(i) => i < products@.len() && products@[i as int].name@ == name@ && forall|
                k: int,
            |
                0 <= k < i ==> (#[trigger] products@[k]).name@ != name@,
            None => !has_name(products@, name@),
        },
{
    let mut i: usize = 0;
    while i < products.len()
        invariant
            i <= products@.len(),
            forall|k: int| 0 <= k < i ==> (#[trigger] products@[k]).name@ != name@,
        decreases products.len() - i,
    {
        if products[i].name == *name {
            return Some(i);
        }
        i = i + 1;
    }
    None
}

/// Appends a new approved product and brings the mean price up to date.
/// Refused with `DuplicateProduct` when an approved product has that name.
pub fn add_product(database: &mut Database, name: String, description: String, price: i64) -> (r:
    Result<(), Errors>)
    ensures
        r == (if has_name(old(database).products@, name@) {
            Err(Errors::DuplicateProduct)
        } else {
            Ok(())
        }),
        r is Err ==> *final(database) == *old(database),
        r is Ok ==> {
            &&& final(database).products@ == old(database).products@.push(
                (Product { name, price, description }),
            )
            &&& final(database).pending_products@ == old(database).pending_products@
            &&& is_average_of(final(database).average_price, final(database).products@)
        },
        old(database).wf() ==> final(database).wf(),
{
    if find_product(&database.products, &name).is_some() {
        return Err(Errors::DuplicateProduct);
    }
    proof {
        if names_unique(database.products@) {
            lemma_push_keeps_names_unique(
                database.products@,
                Product { name, price, description },
            );
        }
    }
    database.products.push(Product { name, price, description });
    database.average_price = average_of(&database.products);
    Ok(())
}

/// Removes the approved product named `name` and brings the mean price up
/// to date. Refused with `NoProductFoundToRemove` when there is none.
pub fn remove_product(database: &mut Database, name: String) -> (r: Result<(), Errors>)
    ensures
        r == (if has_name(old(database).products@, name@) {
            Ok(())
        } else {
            Err(Errors::NoProductFoundToRemove)
        }),
        r is Err ==> *final(database) == *old(database),
        r is Ok ==> exists|i: int|
            {
                &&& 0 <= i < old(database).products@.len()
                &&& (#[trigger] old(database).products@[i]).name@ == name@
                &&& forall|k: int| 0 <= k < i ==> (#[trigger] old(database).products@[k]).name@ != name@
                &&& final(database).products@ == old(database).products@.remove(i)
            },
        r is Ok ==> final(database).pending_products@ == old(database).pending_products@,
        r is Ok ==> is_average_of(final(database).average_price, final(database).products@),
        old(database).wf() ==> final(database).wf(),
{
    match find_product(&database.products, &name) {
        None => Err(Errors::NoProductFoundToRemove),
        Some(pos) => {
            proof {
                if names_unique(database.products@) {
                    lemma_remove_keeps_names_unique(database.products@, pos as int);
                }
            }
            database.products.remove(pos);
            database.average_price = average_of(&database.products);
            Ok(())
        },
    }
}

/// Appends a proposal to the pending list. Refused with `DuplicateProduct`
/// when an approved product has that name; pending proposals may share names.
pub fn propose_product(database: &mut Database, name: String, description: String, price: i64) -> (r:
    Result<(), Errors>)
    ensures
        r == (if has_name(old(database).products@, name@) {
            Err(Errors::DuplicateProduct)
        } else {
            Ok(())
        }),
        r is Err ==> *final(database) == *old(database),
        r is Ok ==> {
            &&& final(database).pending_products@ == old(database).pending_products@.push(
                (Product { name, price, description }),
            )
            &&& final(database).products@ == old(database).products@
            &&& final(database).average_price == old(database).average_price
        },
        old(database).wf() ==> final(database).wf(),
{
    if find_product(&database.products, &name).is_some() {
        return Err(Errors::DuplicateProduct);
    }
    database.pending_products.push(Product { name, price, description });
    Ok(())
}

/// Moves the proposal at `position` of the pending list to the end of the
/// approved list and brings the mean price up to date. Later proposals move
/// down by one place. The name is not checked again against the approved
/// list. Refused with `WrongIndex` when `position` is past the pending list.
pub fn approve_product(database: &mut Database, position: u8) -> (r: Result<(), Errors>)
    ensures
        r == (if position < old(database).pending_products@.len() {
            Ok(())
        } else {
            Err(Errors::WrongIndex)
        }),
        r is Err ==> *final(database) == *old(database),
        r is Ok ==> {
            &&& final(database).products@ == old(database).products@.push(
                old(database).pending_products@[position as int],
            )
            &&& final(database).pending_products@ == old(database).pending_products@.remove(
                position as int,
            )
            &&& is_average_of(final(database).average_price, final(database).products@)
        },
        old(database).wf() && position < old(database).pending_products@.len() && !has_name(
            old(database).products@,
            old(database).pending_products@[position as int].name@,
        ) ==> final(database).wf(),
{
    let position = position as usize;
    if position >= database.pending_products.len() {
        return Err(Errors::WrongIndex);
    }
    proof {
        let p = database.pending_products@[position as int];
        if names_unique(database.products@) && !has_name(database.products@, p.name@) {
            lemma_push_keeps_names_unique(database.products@, p);
        }
    }
    let product = database.pending_products.remove(position);
    database.products.push(product);
    database.average_price = average_of(&database.products);
    Ok(())
}

/// Discards the proposal at `position` of the pending list; later proposals
/// move down by one place. Refused with `WrongIndex` when `position` is past
/// the pending list.
pub fn reject_product(database: &mut Database, position: u8) -> (r: Result<(), Errors>)
    ensures
        r == (if position < old(database).pending_products@.len() {
            Ok(())
        } else {
            Err(Errors::WrongIndex)
        }),
        r is Err ==> *final(database) == *old(database),
        r is Ok ==> {
            &&& final(database).pending_products@ == old(database).pending_products@.remove(
                position as int,
            )
            &&& final(database).products@ == old(database).products@
            &&& final(database).average_price == old(database).average_price
        },
        old(database).wf() ==> final(database).wf(),
{
    let position = position as usize;
    if position >= database.pending_products.len() {
        return Err(Errors::WrongIndex);
    }
    database.pending_products.remove(position);
    Ok(())
}

} // verus!
