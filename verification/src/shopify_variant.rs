//! Monitoring the variants of a product in a Shopify store.
use vstd::prelude::*;
use crate::json::{JsonValue, as_array, as_str, at_key, json_array, json_at, json_str};
use crate::link_set::LinkSet;
use crate::weburl::{parse_url, url_serialization};

verus! {

/// A Shopify product, by its handle; `prepend` is the start of each
/// variant's cart link.
pub struct ShopifyVariant {
    pub url: String,
    pub handle: String,
    pub prepend: String,
}

/// `product["handle"].as_str()`.
pub open spec fn handle_of(product: JsonValue) -> Option<Seq<char>> {
    json_str(json_at(product, "handle"@))
}

/// The first product whose handle is `handle`.
pub open spec fn product_with_handle(products: Seq<JsonValue>, handle: Seq<char>) -> Option<
    JsonValue,
>
    decreases products.len(),
{
    if products.len() == 0 {
        None
    } else if handle_of(products[0]) == Some(handle) {
        Some(products[0])
    } else {
        product_with_handle(products.drop_first(), handle)
    }
}

/// Every product up to the first one with handle `handle` (all of them if
/// there is none) has a string handle, so the search can read each.
pub open spec fn handles_readable(products: Seq<JsonValue>, handle: Seq<char>) -> bool
    decreases products.len(),
{
    products.len() == 0 || (handle_of(products[0]) is Some && (handle_of(products[0]) == Some(
        handle,
    ) || handles_readable(products.drop_first(), handle)))
}

/// The text of a variant's cart link: `prepend`, the variant's id and
/// ":1"; or "Not Found" for a variant without a string id.
pub open spec fn variant_link_text(prepend: Seq<char>, variant: JsonValue) -> Seq<char> {
    match json_str(json_at(variant, "id"@)) {
        Some(id) => prepend + id + ":1"@,
        None => "Not Found"@,
    }
}

/// The cart links of `variants` that parse as URLs.
pub open spec fn variant_links(prepend: Seq<char>, variants: Seq<JsonValue>) -> Set<Seq<char>> {
    Set::new(
        |u: Seq<char>|
            exists|i: int|
                0 <= i < variants.len() && url_serialization(
                    variant_link_text(prepend, #[trigger] variants[i]),
                ) == Some(u),
    )
}

/// Whether the document's product list can be searched: where
/// `v["products"]` is an array, each product up to the wanted one has a
/// string handle.
pub open spec fn shopify_readable(handle: Seq<char>, v: JsonValue) -> bool {
    match json_array(json_at(v, "products"@)) {
        Some(products) => handles_readable(products, handle),
        None => true,
    }
}

/// What a Shopify product reports: the cart links of the variants of the
/// product with the wanted handle, or nothing where the document has no
/// product list, no such product or no variant list.
pub open spec fn shopify_links(prepend: Seq<char>, handle: Seq<char>, v: JsonValue) -> Set<
    Seq<char>,
> {
    match json_array(json_at(v, "products"@)) {
        None => Set::<Seq<char>>::empty(),
        Some(products) => match product_with_handle(products, handle) {
            None => Set::<Seq<char>>::empty(),
            Some(product) => match json_array(json_at(product, "variants"@)) {
                None => Set::<Seq<char>>::empty(),
                Some(variants) => variant_links(prepend, variants),
            },
        },
    }
}

impl ShopifyVariant {
    /// The product that `site_info` describes by its `url`, `handle` and
    /// `prepend`.
    pub fn new(site_info: &JsonValue) -> (r: ShopifyVariant)
        requires
            json_str(json_at(*site_info, "url"@)) is Some,
            json_str(json_at(*site_info, "handle"@)) is Some,
            json_str(json_at(*site_info, "prepend"@)) is Some,
        ensures
            json_str(json_at(*site_info, "url"@)) == Some(r.url@),
            json_str(json_at(*site_info, "handle"@)) == Some(r.handle@),
            json_str(json_at(*site_info, "prepend"@)) == Some(r.prepend@),
    {
        let url = as_str(at_key(Some(site_info), "url")).unwrap().clone();
        let handle = as_str(at_key(Some(site_info), "handle")).unwrap().clone();
        let prepend = as_str(at_key(Some(site_info), "prepend")).unwrap().clone();
        ShopifyVariant { url, handle, prepend }
    }

    /// The first product in `products` whose handle is this product's.
    pub fn find_target_product<'a>(&self, products: &'a Vec<JsonValue>) -> (r: Option<
        &'a JsonValue,
    >)
        requires
            handles_readable(products@, self.handle@),
        ensures
            match r {
                Some(p) => product_with_handle(products@, self.handle@) == Some(*p),
                None => product_with_handle(products@, self.handle@) is None,
            },
    {
        let n = products.len();
        let mut i: usize = 0;
        assert(products@.subrange(0, n as int) =~= products@);
        while i < n
            invariant
                i <= n == products.len(),
                product_with_handle(products@, self.handle@) == product_with_handle(
                    products@.subrange(i as int, n as int),
                    self.handle@,
                ),
                handles_readable(products@.subrange(i as int, n as int), self.handle@),
            decreases n - i,
        {
            let ghost rest = products@.subrange(i as int, n as int);
            assert(rest[0] == products@[i as int]);
            assert(rest.drop_first() =~= products@.subrange(i + 1, n as int));
            let handle = as_str(at_key(Some(&products[i]), "handle")).unwrap();
            if *handle == self.handle {
                return Some(&products[i]);
            }
            i = i + 1;
        }
        None
    }

    /// Whether `process` can read `v`: its product search meets a string
    /// handle at each step.
    pub fn can_read(&self, v: &JsonValue) -> (b: bool)
        ensures
            b == shopify_readable(self.handle@, *v),
    {
        let products = match as_array(at_key(Some(v), "products")) {
            Some(p) => p,
            None => {
                return true;
            },
        };
        let n = products.len();
        let mut i: usize = 0;
        assert(products@.subrange(0, n as int) =~= products@);
        while i < n
            invariant
                i <= n == products.len(),
                json_array(json_at(*v, "products"@)) == Some(products@),
                handles_readable(products@, self.handle@) == handles_readable(
                    products@.subrange(i as int, n as int),
                    self.handle@,
                ),
            decreases n - i,
        {
            let ghost rest = products@.subrange(i as int, n as int);
            assert(rest[0] == products@[i as int]);
            assert(rest.drop_first() =~= products@.subrange(i + 1, n as int));
            match as_str(at_key(Some(&products[i]), "handle")) {
                None => {
                    return false;
                },
                Some(handle) => {
                    if *handle == self.handle {
                        return true;
                    }
                },
            }
            i = i + 1;
        }
        true
    }

    /// Reads the store's product document `v`.
    pub fn process(&self, v: &JsonValue) -> (r: LinkSet)
        requires
            shopify_readable(self.handle@, *v),
        ensures
            r.set() == shopify_links(self.prepend@, self.handle@, *v),
    {
        let products = match as_array(at_key(Some(v), "products")) {
            Some(p) => p,
            None => {
                return LinkSet::new();
            },
        };
        let product = match self.find_target_product(products) {
            Some(p) => p,
            None => {
                return LinkSet::new();
            },
        };
        let variants = match as_array(at_key(Some(product), "variants")) {
            Some(x) => x,
            None => {
                return LinkSet::new();
            },
        };
        let ghost vs = variants@;
        let ghost prepend = self.prepend@;
        let mut links = LinkSet::new();
        let n = variants.len();
        let mut i: usize = 0;
        while i < n
            invariant
                i <= n == variants.len(),
                vs == variants@,
                prepend == self.prepend@,
                links.set() == variant_links(prepend, vs.subrange(0, i as int)),
            decreases n - i,
        {
            let x = &variants[i];
            let text = match as_str(at_key(Some(x), "id")) {
                Some(id) => {
                    let mut s = self.prepend.clone();
                    s.append(id.as_str());
                    s.append(":1");
                    s
                },
                None => String::from_str("Not Found"),
            };
            assert(text@ == variant_link_text(prepend, vs[i as int]));
            let ghost before = links.set();
            match parse_url(text.as_str()) {
                Ok(u) => {
                    links.insert(u);
                },
                Err(_) => {},
            }
            proof {
                let next = vs.subrange(0, i + 1);
                assert forall|u: Seq<char>|
                    links.set().contains(u) == variant_links(prepend, next).contains(u) by {
                    if variant_links(prepend, next).contains(u) {
                        let k = choose|k: int|
                            0 <= k < next.len() && url_serialization(
                                variant_link_text(prepend, #[trigger] next[k]),
                            ) == Some(u);
                        if k < i {
                            assert(vs.subrange(0, i as int)[k] == next[k]);
                            assert(variant_links(prepend, vs.subrange(0, i as int)).contains(u));
                        }
                    }
                    if before.contains(u) {
                        let k = choose|k: int|
                            0 <= k < i && url_serialization(
                                variant_link_text(prepend, #[trigger] vs.subrange(0, i as int)[k]),
                            ) == Some(u);
                        assert(next[k] == vs.subrange(0, i as int)[k]);
                    }
                    if links.set().contains(u) && !before.contains(u) {
                        assert(next[i as int] == vs[i as int]);
                    }
                }
                assert(links.set() =~= variant_links(prepend, next));
            }
            i = i + 1;
        }
        assert(vs.subrange(0, n as int) =~= vs);
        links
    }
}

/// The search finds the first product whose handle is `handle`: where
/// product `j` has that handle and every earlier one a different string
/// handle, the search yields product `j` and can read every handle it meets.
pub proof fn law_search_finds_first_match(products: Seq<JsonValue>, handle: Seq<char>, j: int)
    requires
        0 <= j < products.len(),
        json_str(json_at(products[j], "handle"@)) == Some(handle),
        forall|k: int|
            0 <= k < j ==> json_str(json_at(#[trigger] products[k], "handle"@)) is Some
                && json_str(json_at(products[k], "handle"@)) != Some(handle),
    ensures
        product_with_handle(products, handle) == Some(products[j]),
        handles_readable(products, handle),
    decreases j,
{
    if j > 0 {
        let rest = products.drop_first();
        assert forall|k: int| 0 <= k < j - 1 implies json_str(json_at(#[trigger] rest[k], "handle"@)) is Some
            && json_str(json_at(rest[k], "handle"@)) != Some(handle) by {
            assert(rest[k] == products[k + 1]);
        }
        assert(rest[j - 1] == products[j]);
        law_search_finds_first_match(rest, handle, j - 1);
        assert(json_str(json_at(products[0], "handle"@)) is Some);
    }
}

/// Every variant of the wanted product contributes its cart link: where
/// the document's product list is `products`, product `j` is the first with
/// the wanted handle, its variant list is `variants`, and variant `i` has id
/// `id` such that `prepend + id + ":1"` parses to `u`, then `u` is reported.
pub proof fn law_every_variant_is_reported(
    prepend: Seq<char>,
    handle: Seq<char>,
    v: JsonValue,
    products: Seq<JsonValue>,
    j: int,
    variants: Seq<JsonValue>,
    i: int,
    id: Seq<char>,
    u: Seq<char>,
)
    requires
        json_array(json_at(v, "products"@)) == Some(products),
        0 <= j < products.len(),
        json_str(json_at(products[j], "handle"@)) == Some(handle),
        forall|k: int|
            0 <= k < j ==> json_str(json_at(#[trigger] products[k], "handle"@)) is Some
                && json_str(json_at(products[k], "handle"@)) != Some(handle),
        json_array(json_at(products[j], "variants"@)) == Some(variants),
        0 <= i < variants.len(),
        json_str(json_at(variants[i], "id"@)) == Some(id),
        url_serialization(prepend + id + ":1"@) == Some(u),
    ensures
        shopify_links(prepend, handle, v).contains(u),
{
    law_search_finds_first_match(products, handle, j);
    assert(url_serialization(variant_link_text(prepend, variants[i])) == Some(u));
}

/// Nothing but variant cart links is reported: each reported link is what
/// the link text of some variant of the wanted product parses to, that text
/// being `prepend + id + ":1"` for a variant with string id `id` and
/// "Not Found" for one without.
pub proof fn law_only_variant_links_are_reported(
    prepend: Seq<char>,
    handle: Seq<char>,
    v: JsonValue,
    u: Seq<char>,
)
    requires
        shopify_links(prepend, handle, v).contains(u),
    ensures
        match json_array(json_at(v, "products"@)) {
            Some(products) => exists|product: JsonValue, variants: Seq<JsonValue>, i: int|
                #![trigger products.contains(product), variants[i]]
                {
                    &&& products.contains(product)
                    &&& json_str(json_at(product, "handle"@)) == Some(handle)
                    &&& json_array(json_at(product, "variants"@)) == Some(variants)
                    &&& 0 <= i < variants.len()
                    &&& match json_str(json_at(variants[i], "id"@)) {
                        Some(id) => url_serialization(prepend + id + ":1"@) == Some(u),
                        None => url_serialization("Not Found"@) == Some(u),
                    }
                },
            None => false,
        },
{
    let products = json_array(json_at(v, "products"@))->0;
    let product = product_with_handle(products, handle)->0;
    lemma_search_result(products, handle);
    let variants = json_array(json_at(product, "variants"@))->0;
    let i = choose|i: int|
        0 <= i < variants.len() && url_serialization(
            variant_link_text(prepend, #[trigger] variants[i]),
        ) == Some(u);
    assert(products.contains(product));
}

/// The search yields a product of the list with the wanted handle.
proof fn lemma_search_result(products: Seq<JsonValue>, handle: Seq<char>)
    ensures
        product_with_handle(products, handle) matches Some(p) ==> products.contains(p)
            && json_str(json_at(p, "handle"@)) == Some(handle),
    decreases products.len(),
{
    if products.len() > 0 && handle_of(products[0]) != Some(handle) {
        let rest = products.drop_first();
        lemma_search_result(rest, handle);
        if product_with_handle(rest, handle) is Some {
            let p = product_with_handle(rest, handle)->0;
            let k = choose|k: int| 0 <= k < rest.len() && rest[k] == p;
            assert(products[k + 1] == p);
        }
    } else if products.len() > 0 {
        assert(products[0] == products[0]);
    }
}

} // verus!
