use vstd::prelude::*;

verus! {

/// A product record. The price is a signed amount in the smallest unit of
/// the catalog's currency.
pub struct Product {
    pub name: String,
    pub price: i64,
    pub description: String,
}

/// The mean price of a catalog, kept exactly as a total and a count.
/// Its value is `total / count`, and zero for an empty catalog.
#[derive(Clone, Copy, Debug, PartialEq, Eq, Structural)]
pub struct AveragePrice {
    pub total: i128,
    pub count: usize,
}

/// The sum of the prices of `s`.
pub open spec fn price_total(s: Seq<Product>) -> int
    decreases s.len(),
{
    if s.len() == 0 {
        0
    } else {
        price_total(s.drop_last()) + s.last().price
    }
}

/// Whether some product of `s` is named `name`.
pub open spec fn has_name(s: Seq<Product>, name: Seq<char>) -> bool {
    exists|i: int| 0 <= i < s.len() && (#[trigger] s[i]).name@ == name
}

/// Whether no two products of `s` share a name.
pub open spec fn names_unique(s: Seq<Product>) -> bool {
    forall|i: int, j: int|
        0 <= i < s.len() && 0 <= j < s.len() && i != j ==> (#[trigger] s[i]).name@
            != (#[trigger] s[j]).name@
}

/// Whether `a` is the mean price of `s`.
pub open spec fn is_average_of(a: AveragePrice, s: Seq<Product>) -> bool {
    a.total as int == price_total(s) && a.count as int == s.len()
}

/// Appending a product whose name is new keeps the names unique.
pub proof fn lemma_push_keeps_names_unique(s: Seq<Product>, p: Product)
    requires
        names_unique(s),
        !has_name(s, p.name@),
    ensures
        names_unique(s.push(p)),
{
    let t = s.push(p);
    assert forall|i: int, j: int|
        0 <= i < t.len() && 0 <= j < t.len() && i != j implies (#[trigger] t[i]).name@
            != (#[trigger] t[j]).name@ by {
        if i == s.len() {
            assert(s[j] == t[j]);
        } else if j == s.len() {
            assert(s[i] == t[i]);
        }
    }
}

/// Removing a product keeps the names unique.
pub proof fn lemma_remove_keeps_names_unique(s: Seq<Product>, k: int)
    requires
        names_unique(s),
        0 <= k < s.len(),
    ensures
        names_unique(s.remove(k)),
{
    let t = s.remove(k);
    assert forall|i: int, j: int|
        0 <= i < t.len() && 0 <= j < t.len() && i != j implies (#[trigger] t[i]).name@
            != (#[trigger] t[j]).name@ by {
        let si = if i < k { i } else { i + 1 };
        let sj = if j < k { j } else { j + 1 };
        assert(t[i] == s[si]);
        assert(t[j] == s[sj]);
    }
}

/// The total of `n` prices lies within `n` times the range of one price.
proof fn lemma_price_total_bounds(s: Seq<Product>)
    ensures
        -(s.len() * 0x8000_0000_0000_0000) <= price_total(s) <= s.len() * 0x7fff_ffff_ffff_ffff,
    decreases s.len(),
{
    if s.len() > 0 {
        lemma_price_total_bounds(s.drop_last());
    }
}

/// Sums the prices of `products`: the mean price of that list.
pub fn average_of(products: &Vec<Product>) -> (r: AveragePrice)
    ensures
        is_average_of(r, products@),
{
    let mut total: i128 = 0;
    let mut i: usize = 0;
    while i < products.len()
        invariant
            i <= products.len(),
            total as int == price_total(products@.subrange(0, i as int)),
        decreases products.len() - i,
    {
        proof {
            let next = products@.subrange(0, i + 1);
            assert(next.drop_last() =~= products@.subrange(0, i as int));
            lemma_price_total_bounds(products@.subrange(0, i as int));
        }
        total = total + products[i].price as i128;
        i = i + 1;
    }
    assert(products@.subrange(0, i as int) =~= products@);
    AveragePrice { total, count: products.len() }
}

} // verus!
