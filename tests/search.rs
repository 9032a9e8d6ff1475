use dlsite::item::{
    age_of, circle_id_from_link, parse_count_str, parse_num_str, search_item_from_raw,
    AgeCategory, RawSearchItem, SearchProductItem, WorkType,
};
use dlsite::search::{
    collect_all, collect_parsed, parse_search_html, parse_search_item_html,
    parse_search_results, search_miss_outcome, search_outcome, split_search_items,
    stream_search_page,
    SearchEnvelope,
};
use dlsite::search::extract_raw_item;
use dlsite::selectors::{maker_name, search_result_items};
use dlsite::{DlsiteError, GenericCache};

const GENERAL: &str = "\u{5168}\u{5e74}\u{9f62}";

fn item_html(id: &str, extra: &str) -> String {
    let parts = [
        "<li><div data-product_id=\"{id}\">",
        "<div class=\"work_thumb_inner\"><img src=\"//img.example.com/{id}.jpg\"></div></div>",
        "<div class=\"work_name\"><a href=\"/work/{id}\" title=\"Title {id}\">Title {id}</a></div>",
        "<div class=\"maker_name\"><a href=\"https://www.dlsite.com/maniax/circle/profile/=/maker_id/RG51654.html\">CANDY VOICE</a>",
        "<span class=\"author\"><a href=\"/c\">Creator</a></span></div>",
        "<div class=\"work_price_wrap\"><span class=\"work_price\"><span class=\"work_price_base\">1,980</span></span></div>",
        "<div class=\"work_dl\"><span class=\"_dl_count_{id}\">9,500</span></div>",
        "<div class=\"work_review\"><div><a href=\"/r\">(1,234)</a></div></div>",
        "<div class=\"work_category type_SOU\">Voice</div>",
        "<div class=\"work_rating\"><div class=\"star_rating star_45 mini\"></div></div>",
        "{extra}</li>",
    ];
    parts.concat().replace("{id}", id).replace("{extra}", extra)
}

fn page(items: &[String]) -> String {
    format!("<ul id=\"search_result_img_box\">{}</ul>", items.concat())
}

fn raw_ok() -> RawSearchItem {
    RawSearchItem {
        product_id: Some(Some("RJ01".to_string())),
        maker: Some((
            Some("Circle".to_string()),
            Some("https://x/maker_id/RG99.html".to_string()),
        )),
        author: None,
        price: Some(Some("500".to_string())),
        strike_price: None,
        title: Some(Some("T".to_string())),
        age: None,
        dl_count: None,
        review_count: None,
        work_category: Some(Some("work_category type_RPG".to_string())),
        thumbnail: Some((None, Some("//img/t.jpg".to_string()))),
        rating: None,
    }
}

fn parse_message(r: Result<SearchProductItem, DlsiteError>) -> String {
    match r {
        Err(DlsiteError::Parse(m)) => m,
        other => panic!("expected a parse error, got {:?}", other.map(|i| i.id)),
    }
}

#[test]
fn full_item_is_read() {
    let item = parse_search_item_html(&item_html("RJ291224", "")).expect("item");
    assert_eq!(item.id, "RJ291224");
    assert_eq!(item.title, "Title RJ291224");
    assert_eq!(item.price_original, 1980);
    assert_eq!(item.price_sale, None);
    assert_eq!(item.dl_count, Some(9500));
    assert_eq!(item.rate_count, Some(9500));
    assert_eq!(item.review_count, Some(1234));
    assert_eq!(item.rating, Some(45));
    assert_eq!(item.circle_id, "RG51654");
    assert_eq!(item.circle_name, "CANDY VOICE");
    assert_eq!(item.work_type, WorkType::SOU);
    assert_eq!(item.creator.as_deref(), Some("Creator"));
    assert_eq!(item.creator_omitted, Some(false));
    assert_eq!(item.age_category, AgeCategory::Adult);
    assert_eq!(item.thumbnail_url, "https://img.example.com/RJ291224.jpg");
}

#[test]
fn sale_price_and_age_rating() {
    let html = item_html("RJ1", "")
        .replace(
            "<span class=\"work_price\">",
            "<span class=\"strike\"><span class=\"work_price_base\">2,200</span></span><span class=\"work_price\">",
        )
        .replace(
            "<div class=\"work_dl\">",
            &format!("<div class=\"work_genre\"><span title=\"{}\">x</span></div><div class=\"work_dl\">", GENERAL),
        );
    let item = parse_search_item_html(&html).expect("item");
    assert_eq!(item.price_original, 2200);
    assert_eq!(item.price_sale, Some(1980));
    assert_eq!(item.age_category, AgeCategory::General);
}

#[test]
fn missing_required_parts_name_themselves() {
    let no_id = item_html("RJ1", "").replace("data-product_id=\"RJ1\"", "class=\"x\"");
    assert_eq!(parse_message(parse_search_item_html(&no_id)), "Failed to find data element");
    let no_thumb = item_html("RJ1", "").replace("<img src=\"//img.example.com/RJ1.jpg\">", "");
    assert_eq!(parse_message(parse_search_item_html(&no_thumb)), "Failed to find thumbnail");
    let bad_age = item_html("RJ1", "<div class=\"work_genre\"><span title=\"R-18\">x</span></div>");
    assert_eq!(
        parse_message(parse_search_item_html(&bad_age)),
        "Age category parse error: invalid title"
    );
}

#[test]
fn item_from_plain_parts() {
    let item = search_item_from_raw(raw_ok()).expect("item");
    assert_eq!(item.circle_id, "RG99");
    assert_eq!(item.work_type, WorkType::RPG);
    assert_eq!(item.thumbnail_url, "https://img/t.jpg");
    assert_eq!(item.creator, None);
    assert_eq!(item.creator_omitted, None);
    assert_eq!(item.rating, None);
    assert_eq!(item.price_original, 500);

    let mut r = raw_ok();
    r.author = Some((Some("A".to_string()), Some("author omit".to_string())));
    r.age = Some(Some("R-15".to_string()));
    r.work_category = Some(Some("work_category type_ZZZ".to_string()));
    r.rating = Some(Some("star_rating".to_string()));
    let item = search_item_from_raw(r).expect("item");
    assert_eq!(item.creator_omitted, Some(true));
    assert_eq!(item.age_category, AgeCategory::R15);
    assert_eq!(item.work_type, WorkType::Unknown(String::new()));
    assert_eq!(item.rating, None);
}

#[test]
fn item_errors_come_in_reading_order() {
    let mut r = raw_ok();
    r.product_id = Some(None);
    r.title = None;
    assert_eq!(parse_message(search_item_from_raw(r)), "Failed to get product id");
    let mut r = raw_ok();
    r.title = Some(None);
    assert_eq!(parse_message(search_item_from_raw(r)), "Failed to get title");
    let mut r = raw_ok();
    r.maker = None;
    assert_eq!(parse_message(search_item_from_raw(r)), "Failed to find maker element");
    let mut r = raw_ok();
    r.price = None;
    assert_eq!(parse_message(search_item_from_raw(r)), "Failed to find price element");
    let mut r = raw_ok();
    r.age = Some(None);
    assert_eq!(parse_message(search_item_from_raw(r)), "Age category parse error");
    let mut r = raw_ok();
    r.maker = Some((None, None));
    assert_eq!(parse_message(search_item_from_raw(r)), "Failed to get maker link");
    let mut r = raw_ok();
    r.author = Some((None, Some("author".to_string())));
    assert_eq!(parse_message(search_item_from_raw(r)), "Failed to find creator");
    let mut r = raw_ok();
    r.dl_count = Some(Some("many".to_string()));
    assert_eq!(parse_message(search_item_from_raw(r)), "Invalid dl count");
    let mut r = raw_ok();
    r.dl_count = Some(None);
    assert_eq!(parse_message(search_item_from_raw(r)), "Failed to get dl count");
    let mut r = raw_ok();
    r.review_count = Some(Some("(x)".to_string()));
    assert_eq!(parse_message(search_item_from_raw(r)), "Failed to parse string to count");
    let mut r = raw_ok();
    r.price = Some(Some("free".to_string()));
    assert_eq!(parse_message(search_item_from_raw(r)), "Failed to parse string to number");
    let mut r = raw_ok();
    r.strike_price = Some(None);
    assert_eq!(parse_message(search_item_from_raw(r)), "Failed to find price");
    let mut r = raw_ok();
    r.work_category = None;
    assert_eq!(parse_message(search_item_from_raw(r)), "Failed to find work category");
    let mut r = raw_ok();
    r.work_category = Some(None);
    assert_eq!(parse_message(search_item_from_raw(r)), "Failed to find worktype");
    let mut r = raw_ok();
    r.thumbnail = Some((None, None));
    assert_eq!(parse_message(search_item_from_raw(r)), "Failed to find thumbnail");
    let mut r = raw_ok();
    r.rating = Some(None);
    assert_eq!(parse_message(search_item_from_raw(r)), "Failed to get rating");
}

#[test]
fn numbers_and_links() {
    assert_eq!(parse_num_str("1,980"), Ok(1980));
    assert_eq!(parse_num_str("-5"), Ok(-5));
    assert_eq!(parse_num_str("+7"), Ok(7));
    assert_eq!(parse_num_str("2,147,483,647"), Ok(i32::MAX));
    assert_eq!(parse_num_str("-2147483648"), Ok(i32::MIN));
    assert!(parse_num_str("2147483648").is_err());
    assert!(parse_num_str("").is_err());
    assert!(parse_num_str("-").is_err());
    assert!(parse_num_str("12a").is_err());
    assert_eq!(parse_count_str("(1,234)"), Ok(1234));
    assert_eq!(
        parse_count_str("1 2"),
        Err(DlsiteError::Parse("Failed to parse string to count".to_string()))
    );
    assert_eq!(circle_id_from_link("https://a/b/RG51654.html"), "RG51654");
    assert_eq!(circle_id_from_link("RG1"), "RG1");
    assert_eq!(circle_id_from_link("a/b/"), "");
    assert_eq!(age_of(GENERAL), Some(AgeCategory::General));
    assert_eq!(age_of("R-15"), Some(AgeCategory::R15));
    assert_eq!(age_of("R-18"), None);
}

#[test]
fn page_is_split_in_document_order() {
    let html = page(&[item_html("RJ1", ""), item_html("RJ2", ""), item_html("RJ3", "")]);
    let parts = split_search_items(&html);
    assert_eq!(parts.len(), 3);
    assert!(parts[0].contains("RJ1") && parts[2].contains("RJ3"));
    let items = parse_search_html(&html).expect("page");
    let ids: Vec<&str> = items.iter().map(|i| i.id.as_str()).collect();
    assert_eq!(ids, vec!["RJ1", "RJ2", "RJ3"]);
    assert_eq!(parse_search_html("<p>nothing</p>").map(|v| v.len()), Ok(0));
}

#[test]
fn bulk_fails_where_streaming_skips() {
    let bad = item_html("RJ2", "").replace("data-product_id=\"RJ2\"", "class=\"x\"");
    let html = page(&[item_html("RJ1", ""), bad, item_html("RJ3", "")]);
    let bulk = parse_search_html(&html);
    assert_eq!(
        bulk.map(|v| v.len()),
        Err(DlsiteError::Parse("Failed to find data element".to_string()))
    );
    let streamed = stream_search_page(&SearchEnvelope { search_result: html, count: 45 });
    let ids: Vec<&str> = streamed.items.iter().map(|i| i.id.as_str()).collect();
    assert_eq!(ids, vec!["RJ1", "RJ3"]);
    assert_eq!(streamed.skipped.len(), 1);
    assert_eq!(streamed.count, 45);
}

#[test]
fn combinators_keep_order_and_first_error() {
    let a = search_item_from_raw(raw_ok()).expect("item");
    let rs = vec![
        Ok(a.clone()),
        Err(DlsiteError::Parse("one".to_string())),
        Ok(a.clone()),
        Err(DlsiteError::Parse("two".to_string())),
    ];
    assert_eq!(
        collect_all(rs.clone()).map(|v| v.len()),
        Err(DlsiteError::Parse("one".to_string()))
    );
    let (items, skipped) = collect_parsed(rs);
    assert_eq!(items.len(), 2);
    assert_eq!(
        skipped,
        vec![DlsiteError::Parse("one".to_string()), DlsiteError::Parse("two".to_string())]
    );
    assert_eq!(collect_all(vec![Ok(a.clone()), Ok(a)]).map(|v| v.len()), Ok(2));
    assert_eq!(collect_all(vec![]).map(|v| v.len()), Ok(0));
}

#[test]
fn repeated_search_reuses_cached_items() {
    let mut cache: GenericCache<Vec<SearchProductItem>> = GenericCache::new(100, 3_600_000);
    let path = "/fsr/ajax/=/keyword/x".to_string();
    let html = page(&[item_html("RJ1", ""), item_html("RJ2", "")]);

    let cached = cache.get(&path, 0);
    assert!(cached.is_none());
    let first = search_outcome(
        path.clone(),
        cached,
        SearchEnvelope { search_result: html, count: 45 }
    )
    .expect("first search");
    cache.insert(path.clone(), first.products.clone(), 0);

    // The second fetch brings a page whose HTML would not parse, and a new
    // count: the items come from the cache and only the count is fresh.
    let cached = cache.get(&path, 10_000);
    assert!(cached.is_some());
    let second = search_outcome(
        path.clone(),
        cached,
        SearchEnvelope { search_result: "<li>broken".to_string(), count: 46 }
    )
    .expect("second search");
    let ids = |r: &dlsite::search::SearchResult| -> Vec<String> {
        r.products.iter().map(|i| i.id.clone()).collect()
    };
    assert_eq!(ids(&first), ids(&second));
    assert_eq!(first.count, 45);
    assert_eq!(second.count, 46);
    assert_eq!(second.query_path, path);
    let results = parse_search_results("<li>broken");
    assert!(results.is_empty());
}

#[test]
fn raw_item_is_read_from_html() {
    let raw = extract_raw_item(&item_html("RJ7", ""));
    assert_eq!(raw.product_id, Some(Some("RJ7".to_string())));
    assert_eq!(
        raw.maker,
        Some((
            Some("CANDY VOICE".to_string()),
            Some("https://www.dlsite.com/maniax/circle/profile/=/maker_id/RG51654.html".to_string())
        ))
    );
    assert_eq!(raw.author, Some((Some("Creator".to_string()), Some("author".to_string()))));
    assert_eq!(raw.price, Some(Some("1,980".to_string())));
    assert_eq!(raw.strike_price, None);
    assert_eq!(raw.age, None);
    assert_eq!(raw.title, Some(Some("Title RJ7".to_string())));
    assert_eq!(
        raw.thumbnail,
        Some((Some("//img.example.com/RJ7.jpg".to_string()), None))
    );
    assert_eq!(raw.rating, Some(Some("star_rating star_45 mini".to_string())));
    assert_eq!(search_result_items(), "#search_result_img_box > li");
    assert_eq!(maker_name(), ".maker_name a");
}

#[test]
fn cache_miss_search_returns_page_or_its_error() {
    let good = page(&[item_html("RJ1", ""), item_html("RJ2", "")]);
    let r = search_outcome(
        "/p".to_string(),
        None,
        SearchEnvelope { search_result: good, count: 2 },
    )
    .expect("page");
    assert_eq!(r.products.len(), 2);
    assert_eq!((r.count, r.query_path.as_str()), (2, "/p"));

    let bad = page(&[item_html("RJ1", "").replace("<img src=\"//img.example.com/RJ1.jpg\">", "")]);
    let r = search_outcome(
        "/p".to_string(),
        None,
        SearchEnvelope { search_result: bad, count: 1 },
    );
    assert_eq!(
        r.map(|x| x.count),
        Err(DlsiteError::Parse("Failed to find thumbnail".to_string()))
    );

    let r = search_miss_outcome("/q".to_string(), 9, Err(DlsiteError::Timeout));
    assert_eq!(r.map(|x| x.count), Err(DlsiteError::Timeout));
    let r = search_miss_outcome("/q".to_string(), 9, Ok(vec![])).expect("ok");
    assert_eq!((r.count, r.products.len(), r.query_path.as_str()), (9, 0, "/q"));
}
