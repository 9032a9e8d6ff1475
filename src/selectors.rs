//! CSS selectors of the parts of a search-result page.
use vstd::prelude::*;

verus! {

/// Selector text: one result item of the page.
pub open spec fn items_sel() -> Seq<char> {
    "#search_result_img_box > li"@
}

/// One result item of the page.
pub fn search_result_items() -> (r: &'static str)
    ensures
        r@ == items_sel(),
{
    "#search_result_img_box > li"
}

/// Selector text: the element carrying the product id.
pub open spec fn product_id_sel() -> Seq<char> {
    "div[data-product_id]"@
}

/// The element carrying the product id.
pub fn product_id_element() -> (r: &'static str)
    ensures
        r@ == product_id_sel(),
{
    "div[data-product_id]"
}

/// Selector text: the maker (circle) link.
pub open spec fn maker_sel() -> Seq<char> {
    ".maker_name a"@
}

/// The maker (circle) link.
pub fn maker_name() -> (r: &'static str)
    ensures
        r@ == maker_sel(),
{
    ".maker_name a"
}

/// Selector text: the author element.
pub open spec fn author_sel() -> Seq<char> {
    ".author"@
}

/// The author element.
pub fn author() -> (r: &'static str)
    ensures
        r@ == author_sel(),
{
    ".author"
}

/// Selector text: the current price.
pub open spec fn price_sel() -> Seq<char> {
    ".work_price .work_price_base"@
}

/// The current price.
pub fn work_price() -> (r: &'static str)
    ensures
        r@ == price_sel(),
{
    ".work_price .work_price_base"
}

/// Selector text: the struck-through original price of a discounted work.
pub open spec fn strike_sel() -> Seq<char> {
    ".work_price_wrap .strike .work_price_base"@
}

/// The struck-through original price of a discounted work.
pub fn original_price() -> (r: &'static str)
    ensures
        r@ == strike_sel(),
{
    ".work_price_wrap .strike .work_price_base"
}

/// Selector text: the title link.
pub open spec fn title_sel() -> Seq<char> {
    ".work_name a[title]"@
}

/// The title link.
pub fn work_title() -> (r: &'static str)
    ensures
        r@ == title_sel(),
{
    ".work_name a[title]"
}

/// Selector text: the age-rating element.
pub open spec fn age_sel() -> Seq<char> {
    ".work_genre span"@
}

/// The age-rating element.
pub fn age_category() -> (r: &'static str)
    ensures
        r@ == age_sel(),
{
    ".work_genre span"
}

/// Selector text: the download count.
pub open spec fn dl_sel() -> Seq<char> {
    ".work_dl span[class*=\"dl_count\"]"@
}

/// The download count.
pub fn dl_count() -> (r: &'static str)
    ensures
        r@ == dl_sel(),
{
    ".work_dl span[class*=\"dl_count\"]"
}

/// Selector text: the review-count link.
pub open spec fn review_sel() -> Seq<char> {
    ".work_review div a"@
}

/// The review-count link.
pub fn review_count() -> (r: &'static str)
    ensures
        r@ == review_sel(),
{
    ".work_review div a"
}

/// Selector text: the work-category element.
pub open spec fn category_sel() -> Seq<char> {
    ".work_category"@
}

/// The work-category element.
pub fn work_category() -> (r: &'static str)
    ensures
        r@ == category_sel(),
{
    ".work_category"
}

/// Selector text: the thumbnail image.
pub open spec fn thumbnail_sel() -> Seq<char> {
    ".work_thumb_inner > img"@
}

/// The thumbnail image.
pub fn thumbnail_image() -> (r: &'static str)
    ensures
        r@ == thumbnail_sel(),
{
    ".work_thumb_inner > img"
}

/// Selector text: the star-rating element.
pub open spec fn rating_sel() -> Seq<char> {
    ".work_rating .star_rating"@
}

/// The star-rating element.
pub fn rating() -> (r: &'static str)
    ensures
        r@ == rating_sel(),
{
    ".work_rating .star_rating"
}

/// Selector text: a link inside the author element.
pub open spec fn creator_sel() -> Seq<char> {
    "a"@
}

/// A link inside the author element.
pub fn creator_link() -> (r: &'static str)
    ensures
        r@ == creator_sel(),
{
    "a"
}

} // verus!
