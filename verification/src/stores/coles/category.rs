use vstd::prelude::*;
use crate::conversion::Decoded;
use crate::errors::Error;
use crate::stores::coles::product::{RawResult, SearchResult, TypeTag};
use crate::text::same_text;

verus! {

/// A category of the catalogue, with the entries fetched for it.
#[derive(Debug)]
pub struct Category {
    pub seo_token: String,
    pub products: Vec<RawResult>,
}

/// Whether the category only repeats what other categories hold.
pub open spec fn is_skipped(seo_token: Seq<char>) -> bool {
    seo_token == "down-down"@ || seo_token == "back-to-school"@
}

/// The entries that are no advertisements, in their order.
pub open spec fn without_ads(entries: Seq<RawResult>) -> Seq<RawResult>
    decreases entries.len(),
{
    if entries.len() == 0 {
        Seq::empty()
    } else if entries.last().is_advertisement() {
        without_ads(entries.drop_last())
    } else {
        without_ads(entries.drop_last()).push(entries.last())
    }
}

/// Whether the item is what the entry, which is no advertisement, is to the
/// conversion: the product it was read as, or the failure to read it.
pub open spec fn stands_for(item: Decoded<SearchResult>, entry: RawResult) -> bool {
    match entry.tag {
        TypeTag::Text(_) => match entry.decoded {
            Ok(result) => item == Decoded::Item(result),
            Err(reason) => item == Decoded::<SearchResult>::Failed(Error::SerdeJson(reason)),
        },
        _ => item matches Decoded::Failed(error) && error is Anyhow,
    }
}

impl crate::conversion::Category<Decoded<SearchResult>> for Category {
    fn is_filtered(&self) -> (r: bool)
        ensures
            r == is_skipped(self.seo_token@),
    {
        same_text(self.seo_token.as_str(), "down-down") || same_text(
            self.seo_token.as_str(),
            "back-to-school",
        )
    }

    /// The entries without the advertisements, in their order. An entry that
    /// is no product stays, as a failure.
    fn into_products(self) -> (r: Result<Vec<Decoded<SearchResult>>, Error>)
        ensures
            r is Ok,
            r.unwrap().len() == without_ads(self.products@).len(),
            forall|i: int|
                0 <= i < r.unwrap().len() ==> stands_for(
                    #[trigger] r.unwrap()[i],
                    without_ads(self.products@)[i],
                ),
    {
        let mut items: Vec<Decoded<SearchResult>> = Vec::new();
        let ghost all = self.products@;
        for entry in iter: self.products
            invariant
                iter.seq() == all,
                items.len() == without_ads(all.take(iter.index() as int)).len(),
                forall|i: int|
                    0 <= i < items.len() ==> stands_for(
                        #[trigger] items[i],
                        without_ads(all.take(iter.index() as int))[i],
                    ),
        {
            proof {
                let i = iter.index() as int;
                assert(all.take(i + 1).drop_last() =~= all.take(i));
                assert(all.take(i + 1).last() == all[i]);
            }
            match SearchResult::from_json_value(entry) {
                Ok(result) => items.push(Decoded::Item(result)),
                Err(Error::AdResult) => {},
                Err(error) => items.push(Decoded::Failed(error)),
            }
        }
        proof {
            assert(all.take(all.len() as int) =~= all);
        }
        Ok(items)
    }
}

} // verus!
