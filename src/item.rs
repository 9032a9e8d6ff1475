//! One search-result record and the rules that build it from what its HTML
//! holds.
use crate::error::{DlsiteError, Result};
use crate::text::{
    chars_of, parse_i32, parse_int, remove_chars, split_chars, split_on, string_of, without,
};
use vstd::prelude::*;

verus! {

/// Age rating of a work.
#[derive(Clone, Copy, Debug, PartialEq, Eq)]
pub enum AgeCategory {
    General,
    R15,
    Adult,
}

/// Kind of work, by the catalog's three-letter code.
#[allow(non_camel_case_types)]
#[derive(Clone, Debug, PartialEq, Eq)]
pub enum WorkType {
    ACN,
    QIZ,
    ADV,
    RPG,
    TBL,
    DNV,
    SLN,
    TYP,
    STG,
    PZL,
    ETC,
    MNG,
    SCM,
    WBT,
    ICG,
    NRE,
    KSV,
    SOU,
    MUS,
    TOL,
    IMT,
    AMT,
    MOV,
    VCM,
    ET3,
    Unknown(String),
}

/// One product of a search-result page.
#[derive(Clone, Debug)]
pub struct SearchProductItem {
    pub id: String,
    pub title: String,
    pub creator: Option<String>,
    pub creator_omitted: Option<bool>,
    pub circle_name: String,
    pub circle_id: String,
    pub dl_count: Option<i32>,
    pub rate_count: Option<i32>,
    pub review_count: Option<i32>,
    pub price_original: i32,
    pub price_sale: Option<i32>,
    pub age_category: AgeCategory,
    pub work_type: WorkType,
    pub thumbnail_url: String,
    /// Star rating in tenths of a star (45 is four and a half stars).
    pub rating: Option<i32>,
}

/// What the HTML of one result item holds, element by element. For each
/// element `None` means the element is absent; inside, `None` means the text
/// or attribute that is read from it is absent.
#[derive(Clone, Debug)]
pub struct RawSearchItem {
    /// The `data-product_id` attribute of the product element.
    pub product_id: Option<Option<String>>,
    /// The maker link: its first text and its `href`.
    pub maker: Option<(Option<String>, Option<String>)>,
    /// The author element: the first text of its first link, and its `class`.
    pub author: Option<(Option<String>, Option<String>)>,
    /// The first text of the price element.
    pub price: Option<Option<String>>,
    /// The first text of the struck-through (original) price element.
    pub strike_price: Option<Option<String>>,
    /// The `title` attribute of the title link.
    pub title: Option<Option<String>>,
    /// The `title` attribute of the age-rating element.
    pub age: Option<Option<String>>,
    /// The first text of the download-count element.
    pub dl_count: Option<Option<String>>,
    /// The first text of the review-count link.
    pub review_count: Option<Option<String>>,
    /// The `class` attribute of the work-category element.
    pub work_category: Option<Option<String>>,
    /// The thumbnail image: its `src` and its `data-src`.
    pub thumbnail: Option<(Option<String>, Option<String>)>,
    /// The `class` attribute of the star-rating element.
    pub rating: Option<Option<String>>,
}

/// The view of an optional string.
pub open spec fn opt_view(o: Option<String>) -> Option<Seq<char>> {
    match o {
        Some(s) => Some(s@),
        None => None,
    }
}

/// The work type a three-letter code stands for.
pub open spec fn work_type_of_chars(a: char, b: char, c: char) -> Option<WorkType> {
    match (a, b, c) {
        ('A', 'C', 'N') => Some(WorkType::ACN),
        ('Q', 'I', 'Z') => Some(WorkType::QIZ),
        ('A', 'D', 'V') => Some(WorkType::ADV),
        ('R', 'P', 'G') => Some(WorkType::RPG),
        ('T', 'B', 'L') => Some(WorkType::TBL),
        ('D', 'N', 'V') => Some(WorkType::DNV),
        ('S', 'L', 'N') => Some(WorkType::SLN),
        ('T', 'Y', 'P') => Some(WorkType::TYP),
        ('S', 'T', 'G') => Some(WorkType::STG),
        ('P', 'Z', 'L') => Some(WorkType::PZL),
        ('E', 'T', 'C') => Some(WorkType::ETC),
        ('M', 'N', 'G') => Some(WorkType::MNG),
        ('S', 'C', 'M') => Some(WorkType::SCM),
        ('W', 'B', 'T') => Some(WorkType::WBT),
        ('I', 'C', 'G') => Some(WorkType::ICG),
        ('N', 'R', 'E') => Some(WorkType::NRE),
        ('K', 'S', 'V') => Some(WorkType::KSV),
        ('S', 'O', 'U') => Some(WorkType::SOU),
        ('M', 'U', 'S') => Some(WorkType::MUS),
        ('T', 'O', 'L') => Some(WorkType::TOL),
        ('I', 'M', 'T') => Some(WorkType::IMT),
        ('A', 'M', 'T') => Some(WorkType::AMT),
        ('M', 'O', 'V') => Some(WorkType::MOV),
        ('V', 'C', 'M') => Some(WorkType::VCM),
        ('E', 'T', '3') => Some(WorkType::ET3),
        _ => None,
    }
}

/// The known work type a code stands for, if any.
pub open spec fn work_type_of_code(code: Seq<char>) -> Option<WorkType> {
    if code.len() == 3 {
        work_type_of_chars(code[0], code[1], code[2])
    } else {
        None
    }
}

/// `w` without the prefix `p`, when it starts with it.
pub open spec fn strip(w: Seq<char>, p: Seq<char>) -> Option<Seq<char>> {
    if p.len() <= w.len() && w.subrange(0, p.len() as int) == p {
        Some(w.subrange(p.len() as int, w.len() as int))
    } else {
        None
    }
}

/// The work type named by a class word `type_XXX`, if it is a known one.
pub open spec fn type_word(w: Seq<char>) -> Option<WorkType> {
    match strip(w, seq!['t', 'y', 'p', 'e', '_']) {
        Some(code) => work_type_of_code(code),
        None => None,
    }
}

/// The first known work type among class words.
pub open spec fn first_type(ws: Seq<Seq<char>>) -> Option<WorkType>
    decreases ws.len(),
{
    if ws.len() == 0 {
        None
    } else if type_word(ws[0]) is Some {
        type_word(ws[0])
    } else {
        first_type(ws.drop_first())
    }
}

/// The rating named by a class word `star_N`, if `N` is a number.
pub open spec fn star_word(w: Seq<char>) -> Option<int> {
    match strip(w, seq!['s', 't', 'a', 'r', '_']) {
        Some(n) => parse_i32(n),
        None => None,
    }
}

/// The first rating among class words.
pub open spec fn first_star(ws: Seq<Seq<char>>) -> Option<int>
    decreases ws.len(),
{
    if ws.len() == 0 {
        None
    } else if star_word(ws[0]) is Some {
        star_word(ws[0])
    } else {
        first_star(ws.drop_first())
    }
}

/// Whether `omit` is one of the space-separated words of `class`.
pub open spec fn omitted(class: Seq<char>) -> bool {
    exists|i: int|
        0 <= i < split_on(class, ' ').len() && split_on(class, ' ')[i] == seq![
            'o',
            'm',
            'i',
            't',
        ]
}

/// The circle id in a maker link: the last path segment, up to its first dot.
pub open spec fn circle_id_of(href: Seq<char>) -> Seq<char> {
    split_on(split_on(href, '/').last(), '.')[0]
}

/// A number written with thousands separators.
pub open spec fn num_of(t: Seq<char>) -> Option<int> {
    parse_i32(without(t, seq![',']))
}

/// A count written in parentheses with thousands separators.
pub open spec fn count_of(t: Seq<char>) -> Option<int> {
    parse_i32(without(t, seq!['(', ')', ',']))
}

/// The age category named by the rating element's title.
pub open spec fn age_of_title(t: Seq<char>) -> Option<AgeCategory> {
    if t == seq!['\u{5168}', '\u{5e74}', '\u{9f62}'] {
        Some(AgeCategory::General)
    } else if t == seq!['R', '-', '1', '5'] {
        Some(AgeCategory::R15)
    } else {
        None
    }
}

/// The text of the element that holds the original price: the struck-through
/// one when there is one, else the only price.
pub open spec fn original_price_text(raw: RawSearchItem) -> Option<String> {
    if raw.strike_price is Some {
        raw.strike_price->0
    } else {
        raw.price->0
    }
}

/// The message of the first rule that `raw` breaks, in the order in which the
/// fields are read, or `None` when a record can be built from it.
pub open spec fn item_problem(raw: RawSearchItem) -> Option<Seq<char>> {
    if raw.product_id is None {
        Some("Failed to find data element"@)
    } else if raw.maker is None {
        Some("Failed to find maker element"@)
    } else if raw.price is None {
        Some("Failed to find price element"@)
    } else if raw.product_id->0 is None {
        Some("Failed to get product id"@)
    } else if !(raw.title matches Some(Some(_))) {
        Some("Failed to get title"@)
    } else if raw.age matches Some(None) {
        Some("Age category parse error"@)
    } else if raw.age matches Some(Some(t)) && age_of_title(t@) is None {
        Some("Age category parse error: invalid title"@)
    } else if (raw.maker->0).1 is None {
        Some("Failed to get maker link"@)
    } else if raw.author matches Some((None, _)) {
        Some("Failed to find creator"@)
    } else if raw.author matches Some((_, None)) {
        Some("Failed to find creator"@)
    } else if raw.dl_count matches Some(None) {
        Some("Failed to get dl count"@)
    } else if raw.dl_count matches Some(Some(t)) && num_of(t@) is None {
        Some("Invalid dl count"@)
    } else if raw.dl_count matches Some(Some(t)) && count_of(t@) is None {
        Some("Failed to parse string to count"@)
    } else if raw.review_count matches Some(None) {
        Some("Failed to get review count"@)
    } else if raw.review_count matches Some(Some(t)) && count_of(t@) is None {
        Some("Failed to parse string to count"@)
    } else if original_price_text(raw) is None {
        Some("Failed to find price"@)
    } else if num_of(original_price_text(raw)->0@) is None {
        Some("Failed to parse string to number"@)
    } else if raw.strike_price is Some && raw.price->0 is None {
        Some("Failed to find price"@)
    } else if raw.strike_price is Some && num_of((raw.price->0)->0@) is None {
        Some("Failed to parse string to number"@)
    } else if raw.work_category is None {
        Some("Failed to find work category"@)
    } else if raw.work_category->0 is None {
        Some("Failed to find worktype"@)
    } else if raw.thumbnail is None || raw.thumbnail->0 matches (None, None) {
        Some("Failed to find thumbnail"@)
    } else if raw.rating matches Some(None) {
        Some("Failed to get rating"@)
    } else {
        None
    }
}

/// The fields of the record built from `raw`, which breaks no rule.
pub open spec fn item_fields(item: SearchProductItem, raw: RawSearchItem) -> bool {
    let maker = raw.maker->0;
    let thumb = raw.thumbnail->0;
    let class = (raw.work_category->0)->0@;
    &&& item.id@ == (raw.product_id->0)->0@
    &&& item.title@ == (raw.title->0)->0@
    &&& item.age_category == match raw.age {
        Some(Some(t)) => age_of_title(t@)->0,
        _ => AgeCategory::Adult,
    }
    &&& item.circle_name@ == match maker.0 {
        Some(t) => t@,
        None => Seq::<char>::empty(),
    }
    &&& item.circle_id@ == circle_id_of(maker.1->0@)
    &&& opt_view(item.creator) == match raw.author {
        Some((name, _)) => Some(name->0@),
        None => None,
    }
    &&& item.creator_omitted == match raw.author {
        Some((_, class)) => Some(omitted(class->0@)),
        None => None,
    }
    &&& item.dl_count == match raw.dl_count {
        Some(t) => Some(num_of(t->0@)->0 as i32),
        None => None,
    }
    &&& item.rate_count == match raw.dl_count {
        Some(t) => Some(count_of(t->0@)->0 as i32),
        None => None,
    }
    &&& item.review_count == match raw.review_count {
        Some(t) => Some(count_of(t->0@)->0 as i32),
        None => None,
    }
    &&& item.price_original == num_of(original_price_text(raw)->0@)->0 as i32
    &&& item.price_sale == if raw.strike_price is Some {
        Some(num_of((raw.price->0)->0@)->0 as i32)
    } else {
        None
    }
    &&& match first_type(split_on(class, ' ')) {
        Some(t) => item.work_type == t,
        None => item.work_type matches WorkType::Unknown(u) && u@.len() == 0,
    }
    &&& item.thumbnail_url@ == "https:"@ + match thumb.0 {
        Some(src) => src@,
        None => thumb.1->0@,
    }
    &&& item.rating == match raw.rating {
        Some(class) => match first_star(split_on(class->0@, ' ')) {
            Some(n) => Some(n as i32),
            None => None,
        },
        None => None,
    }
}

/// What building a record from `raw` gives: the error of the first broken
/// rule, or the record.
pub open spec fn item_outcome(r: Result<SearchProductItem>, raw: RawSearchItem) -> bool {
    match item_problem(raw) {
        Some(msg) => r matches Err(DlsiteError::Parse(m)) && m@ == msg,
        None => r matches Ok(item) && item_fields(item, raw),
    }
}

/// The views of a sequence of character vectors.
pub open spec fn views(ws: Seq<Vec<char>>) -> Seq<Seq<char>> {
    ws.map_values(|w: Vec<char>| w@)
}

/// The known work type a code stands for; see [`work_type_of_code`].
pub fn work_type_of(code: &Vec<char>) -> (r: Option<WorkType>)
    ensures
        r == work_type_of_code(code@),
{
    if code.len() != 3 {
        return None;
    }
    match (code[0], code[1], code[2]) {
        ('A', 'C', 'N') => Some(WorkType::ACN),
        ('Q', 'I', 'Z') => Some(WorkType::QIZ),
        ('A', 'D', 'V') => Some(WorkType::ADV),
        ('R', 'P', 'G') => Some(WorkType::RPG),
        ('T', 'B', 'L') => Some(WorkType::TBL),
        ('D', 'N', 'V') => Some(WorkType::DNV),
        ('S', 'L', 'N') => Some(WorkType::SLN),
        ('T', 'Y', 'P') => Some(WorkType::TYP),
        ('S', 'T', 'G') => Some(WorkType::STG),
        ('P', 'Z', 'L') => Some(WorkType::PZL),
        ('E', 'T', 'C') => Some(WorkType::ETC),
        ('M', 'N', 'G') => Some(WorkType::MNG),
        ('S', 'C', 'M') => Some(WorkType::SCM),
        ('W', 'B', 'T') => Some(WorkType::WBT),
        ('I', 'C', 'G') => Some(WorkType::ICG),
        ('N', 'R', 'E') => Some(WorkType::NRE),
        ('K', 'S', 'V') => Some(WorkType::KSV),
        ('S', 'O', 'U') => Some(WorkType::SOU),
        ('M', 'U', 'S') => Some(WorkType::MUS),
        ('T', 'O', 'L') => Some(WorkType::TOL),
        ('I', 'M', 'T') => Some(WorkType::IMT),
        ('A', 'M', 'T') => Some(WorkType::AMT),
        ('M', 'O', 'V') => Some(WorkType::MOV),
        ('V', 'C', 'M') => Some(WorkType::VCM),
        ('E', 'T', '3') => Some(WorkType::ET3),
        _ => None,
    }
}

/// `w` without the prefix `p`, when it starts with it; see [`strip`].
pub fn strip_prefix_chars(w: &Vec<char>, p: &Vec<char>) -> (r: Option<Vec<char>>)
    ensures
        match strip(w@, p@) {
            Some(rest) => r matches Some(v) && v@ == rest,
            None => r is None,
        },
{
    if p.len() > w.len() {
        return None;
    }
    let mut i: usize = 0;
    while i < p.len()
        invariant
            p.len() <= w.len(),
            i <= p.len(),
            forall|k: int| 0 <= k < i ==> w@[k] == p@[k],
        decreases p.len() - i,
    {
        if w[i] != p[i] {
            proof {
                assert(w@.subrange(0, p.len() as int)[i as int] != p@[i as int]);
            }
            return None;
        }
        i = i + 1;
    }
    proof {
        assert(w@.subrange(0, p.len() as int) =~= p@);
    }
    let mut rest: Vec<char> = Vec::new();
    let mut k: usize = p.len();
    while k < w.len()
        invariant
            p.len() <= k <= w.len(),
            rest@ == w@.subrange(p.len() as int, k as int),
        decreases w.len() - k,
    {
        rest.push(w[k]);
        proof {
            assert(rest@ =~= w@.subrange(p.len() as int, k + 1));
        }
        k = k + 1;
    }
    Some(rest)
}

/// The work type named by a class word; see [`type_word`].
fn type_of_word(w: &Vec<char>) -> (r: Option<WorkType>)
    ensures
        r == type_word(w@),
{
    let prefix = vec!['t', 'y', 'p', 'e', '_'];
    proof {
        assert(prefix@ =~= seq!['t', 'y', 'p', 'e', '_']);
    }
    match strip_prefix_chars(w, &prefix) {
        Some(code) => work_type_of(&code),
        None => None,
    }
}

/// The rating named by a class word; see [`star_word`].
fn star_of_word(w: &Vec<char>) -> (r: Option<i32>)
    ensures
        match star_word(w@) {
            Some(n) => r == Some(n as i32),
            None => r is None,
        },
{
    let prefix = vec!['s', 't', 'a', 'r', '_'];
    proof {
        assert(prefix@ =~= seq!['s', 't', 'a', 'r', '_']);
    }
    match strip_prefix_chars(w, &prefix) {
        Some(n) => parse_int(&n),
        None => None,
    }
}

/// The first known work type among the words of a `class` attribute, or an
/// unknown one with an empty code.
pub fn work_type_of_class(class: &str) -> (r: WorkType)
    ensures
        match first_type(split_on(class@, ' ')) {
            Some(t) => r == t,
            None => r matches WorkType::Unknown(u) && u@.len() == 0,
        },
{
    let words = split_chars(&chars_of(class), ' ');
    let ghost ws = views(words@);
    proof {
        assert(ws =~= split_on(class@, ' '));
        assert(ws.subrange(0, ws.len() as int) =~= ws);
    }
    let mut i: usize = 0;
    while i < words.len()
        invariant
            i <= words.len(),
            ws == views(words@),
            ws == split_on(class@, ' '),
            first_type(ws) == first_type(ws.subrange(i as int, ws.len() as int)),
        decreases words.len() - i,
    {
        let ghost rest = ws.subrange(i as int, ws.len() as int);
        let t = type_of_word(&words[i]);
        proof {
            assert(rest[0] == words@[i as int]@);
        }
        if t.is_some() {
            return t.unwrap();
        }
        proof {
            assert(rest.drop_first() =~= ws.subrange(i + 1, ws.len() as int));
        }
        i = i + 1;
    }
    proof {
        assert(ws.subrange(i as int, ws.len() as int).len() == 0);
    }
    WorkType::Unknown(String::new())
}

/// The first rating among the words of a `class` attribute.
pub fn rating_of_class(class: &str) -> (r: Option<i32>)
    ensures
        match first_star(split_on(class@, ' ')) {
            Some(n) => r == Some(n as i32),
            None => r is None,
        },
{
    let words = split_chars(&chars_of(class), ' ');
    let ghost ws = views(words@);
    proof {
        assert(ws =~= split_on(class@, ' '));
        assert(ws.subrange(0, ws.len() as int) =~= ws);
    }
    let mut i: usize = 0;
    while i < words.len()
        invariant
            i <= words.len(),
            ws == views(words@),
            ws == split_on(class@, ' '),
            first_star(ws) == first_star(ws.subrange(i as int, ws.len() as int)),
        decreases words.len() - i,
    {
        let ghost rest = ws.subrange(i as int, ws.len() as int);
        let n = star_of_word(&words[i]);
        proof {
            assert(rest[0] == words@[i as int]@);
        }
        if n.is_some() {
            return n;
        }
        proof {
            assert(rest.drop_first() =~= ws.subrange(i + 1, ws.len() as int));
        }
        i = i + 1;
    }
    proof {
        assert(ws.subrange(i as int, ws.len() as int).len() == 0);
    }
    None
}

/// Whether `omit` is one of the words of a `class` attribute.
pub fn is_omitted(class: &str) -> (r: bool)
    ensures
        r == omitted(class@),
{
    let words = split_chars(&chars_of(class), ' ');
    let target = vec!['o', 'm', 'i', 't'];
    proof {
        assert(target@ =~= seq!['o', 'm', 'i', 't']);
    }
    let mut i: usize = 0;
    while i < words.len()
        invariant
            i <= words.len(),
            words.len() == split_on(class@, ' ').len(),
            forall|k: int| 0 <= k < words.len() ==> #[trigger] words[k]@ == split_on(class@, ' ')[k],
            target@ == seq!['o', 'm', 'i', 't'],
            forall|k: int| 0 <= k < i ==> split_on(class@, ' ')[k] != seq!['o', 'm', 'i', 't'],
        decreases words.len() - i,
    {
        let w = &words[i];
        let mut same = w.len() == 4;
        let mut k: usize = 0;
        while same && k < 4
            invariant
                k <= 4,
                target@ == seq!['o', 'm', 'i', 't'],
                same ==> w.len() == 4 && forall|m: int| 0 <= m < k ==> w@[m] == target@[m],
                !same ==> w@ != target@,
            decreases 4 - k,
        {
            if w[k] != target[k] {
                same = false;
            }
            k = k + 1;
        }
        if same {
            proof {
                assert(w@ =~= target@);
                assert(words[i as int]@ == split_on(class@, ' ')[i as int]);
            }
            return true;
        }
        proof {
            assert(words[i as int]@ == split_on(class@, ' ')[i as int]);
        }
        i = i + 1;
    }
    false
}

/// The circle id in a maker link; see [`circle_id_of`].
pub fn circle_id_from_link(href: &str) -> (r: String)
    ensures
        r@ == circle_id_of(href@),
{
    let segments = split_chars(&chars_of(href), '/');
    let last = &segments[segments.len() - 1];
    let parts = split_chars(last, '.');
    string_of(&parts[0])
}

/// Reads a number written with thousands separators.
pub fn parse_num_str(s: &str) -> (r: Result<i32>)
    ensures
        match num_of(s@) {
            Some(v) => r == Ok::<i32, DlsiteError>(v as i32),
            None => r matches Err(DlsiteError::Parse(m)) && m@
                == "Failed to parse string to number"@,
        },
{
    let drop = vec![','];
    proof {
        assert(drop@ =~= seq![',']);
    }
    match parse_int(&remove_chars(&chars_of(s), &drop)) {
        Some(v) => Ok(v),
        None => Err(DlsiteError::Parse(String::from_str("Failed to parse string to number"))),
    }
}

/// Reads a count written in parentheses with thousands separators.
pub fn parse_count_str(s: &str) -> (r: Result<i32>)
    ensures
        match count_of(s@) {
            Some(v) => r == Ok::<i32, DlsiteError>(v as i32),
            None => r matches Err(DlsiteError::Parse(m)) && m@
                == "Failed to parse string to count"@,
        },
{
    let drop = vec!['(', ')', ','];
    proof {
        assert(drop@ =~= seq!['(', ')', ',']);
    }
    match parse_int(&remove_chars(&chars_of(s), &drop)) {
        Some(v) => Ok(v),
        None => Err(DlsiteError::Parse(String::from_str("Failed to parse string to count"))),
    }
}

/// The age category named by the rating element's title.
pub fn age_of(title: &str) -> (r: Option<AgeCategory>)
    ensures
        r == age_of_title(title@),
{
    let t = chars_of(title);
    if t.len() == 3 && t[0] == '\u{5168}' && t[1] == '\u{5e74}' && t[2] == '\u{9f62}' {
        proof {
            assert(t@ =~= seq!['\u{5168}', '\u{5e74}', '\u{9f62}']);
        }
        Some(AgeCategory::General)
    } else if t.len() == 4 && t[0] == 'R' && t[1] == '-' && t[2] == '1' && t[3] == '5' {
        proof {
            assert(t@ =~= seq!['R', '-', '1', '5']);
        }
        Some(AgeCategory::R15)
    } else {
        proof {
            if t@ == seq!['\u{5168}', '\u{5e74}', '\u{9f62}'] {
                assert(t@[0] == '\u{5168}' && t@[1] == '\u{5e74}' && t@[2] == '\u{9f62}');
            }
            if t@ == seq!['R', '-', '1', '5'] {
                assert(t@[0] == 'R' && t@[1] == '-' && t@[2] == '1' && t@[3] == '5');
            }
        }
        None
    }
}

/// A parse error carrying `msg`.
fn parse_error(msg: &str) -> (r: DlsiteError)
    ensures
        r matches DlsiteError::Parse(m) && m@ == msg@,
{
    DlsiteError::Parse(String::from_str(msg))
}

/// Builds a record from what the HTML of one result item holds. Required
/// parts that are missing or unreadable give a parse error naming them, the
/// first one in reading order; optional parts that are absent give `None`.
pub fn search_item_from_raw(raw: RawSearchItem) -> (r: Result<SearchProductItem>)
    ensures
        item_outcome(r, raw),
{
    let ghost raw0 = raw;
    let RawSearchItem {
        product_id,
        maker,
        author,
        price,
        strike_price,
        title,
        age,
        dl_count,
        review_count,
        work_category,
        thumbnail,
        rating,
    } = raw;
    let product_id = match product_id {
        None => return Err(parse_error("Failed to find data element")),
        Some(p) => p,
    };
    let (maker_text, maker_href) = match maker {
        None => return Err(parse_error("Failed to find maker element")),
        Some(m) => m,
    };
    let price = match price {
        None => return Err(parse_error("Failed to find price element")),
        Some(p) => p,
    };
    let id = match product_id {
        None => return Err(parse_error("Failed to get product id")),
        Some(id) => id,
    };
    let title = match title {
        Some(Some(t)) => t,
        _ => return Err(parse_error("Failed to get title")),
    };
    let age_category = match age {
        None => AgeCategory::Adult,
        Some(None) => return Err(parse_error("Age category parse error")),
        Some(Some(t)) => match age_of(&t) {
            Some(a) => a,
            None => return Err(parse_error("Age category parse error: invalid title")),
        },
    };
    let circle_name = match maker_text {
        Some(t) => t,
        None => String::new(),
    };
    let circle_id = match maker_href {
        None => return Err(parse_error("Failed to get maker link")),
        Some(h) => circle_id_from_link(&h),
    };
    let (creator, creator_omitted) = match author {
        None => (None, None),
        Some((name, class)) => {
            let name = match name {
                None => return Err(parse_error("Failed to find creator")),
                Some(n) => n,
            };
            let class = match class {
                None => return Err(parse_error("Failed to find creator")),
                Some(c) => c,
            };
            (Some(name), Some(is_omitted(&class)))
        },
    };
    let (dl, rate) = match dl_count {
        None => (None, None),
        Some(None) => return Err(parse_error("Failed to get dl count")),
        Some(Some(t)) => {
            let d = match parse_num_str(&t) {
                Ok(v) => v,
                Err(_) => return Err(parse_error("Invalid dl count")),
            };
            let c = match parse_count_str(&t) {
                Ok(v) => v,
                Err(e) => return Err(e),
            };
            (Some(d), Some(c))
        },
    };
    let reviews = match review_count {
        None => None,
        Some(None) => return Err(parse_error("Failed to get review count")),
        Some(Some(t)) => match parse_count_str(&t) {
            Ok(v) => Some(v),
            Err(e) => return Err(e),
        },
    };
    let (original_text, sale_text) = match strike_price {
        Some(strike) => (strike, Some(price)),
        None => (price, None),
    };
    let price_original = match original_text {
        None => return Err(parse_error("Failed to find price")),
        Some(t) => match parse_num_str(&t) {
            Ok(v) => v,
            Err(e) => return Err(e),
        },
    };
    let price_sale = match sale_text {
        None => None,
        Some(None) => return Err(parse_error("Failed to find price")),
        Some(Some(t)) => match parse_num_str(&t) {
            Ok(v) => Some(v),
            Err(e) => return Err(e),
        },
    };
    let work_type = match work_category {
        None => return Err(parse_error("Failed to find work category")),
        Some(None) => return Err(parse_error("Failed to find worktype")),
        Some(Some(class)) => work_type_of_class(&class),
    };
    let thumbnail_url = match thumbnail {
        Some((Some(src), _)) => {
            let mut u = String::from_str("https:");
            u.append(src.as_str());
            u
        },
        Some((None, Some(data_src))) => {
            let mut u = String::from_str("https:");
            u.append(data_src.as_str());
            u
        },
        _ => return Err(parse_error("Failed to find thumbnail")),
    };
    let rating = match rating {
        None => None,
        Some(None) => return Err(parse_error("Failed to get rating")),
        Some(Some(class)) => rating_of_class(&class),
    };
    let item = SearchProductItem {
        id,
        title,
        creator,
        creator_omitted,
        circle_name,
        circle_id,
        dl_count: dl,
        rate_count: rate,
        review_count: reviews,
        price_original,
        price_sale,
        age_category,
        work_type,
        thumbnail_url,
        rating,
    };
    Ok(item)
}

} // verus!
