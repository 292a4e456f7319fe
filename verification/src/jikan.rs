use vstd::prelude::*;
use crate::errors::{ApiError, ApiErrorView};
use crate::text::{decimal, push_decimal};

verus! {

/// The kinds of anime the catalogue distinguishes.
#[derive(Debug, Clone, Copy, PartialEq, Eq)]
pub enum AnimeType {
    TV,
    MOVIE,
    OVA,
    SPECIAL,
    ONA,
    MUSIC,
    CM,
    PV,
    TvSpecial,
}

/// The airing states of an anime.
#[derive(Debug, Clone, Copy, PartialEq, Eq)]
pub enum AnimeStatus {
    AIRING,
    COMPLETE,
    UPCOMING,
}

/// The rankings of the top-anime listing.
#[derive(Debug, Clone, Copy, PartialEq, Eq)]
pub enum AnimeFilter {
    AIRING,
    UPCOMING,
    POPULARITY,
    FAVOURITE,
}

/// The audience ratings of an anime.
#[derive(Debug, Clone, Copy, PartialEq, Eq)]
pub enum AnimeRating {
    G,
    PG,
    PG13,
    R17,
    R,
    Rx,
}

/// The name the anime database uses for a kind of anime.
pub open spec fn anime_type_name(t: AnimeType) -> Seq<char> {
    match t {
        AnimeType::TV => "tv"@,
        AnimeType::MOVIE => "movie"@,
        AnimeType::OVA => "ova"@,
        AnimeType::SPECIAL => "special"@,
        AnimeType::ONA => "ona"@,
        AnimeType::MUSIC => "music"@,
        AnimeType::CM => "cm"@,
        AnimeType::PV => "pv"@,
        AnimeType::TvSpecial => "tv_special"@,
    }
}

/// The name the anime database uses for an airing state.
pub open spec fn anime_status_name(s: AnimeStatus) -> Seq<char> {
    match s {
        AnimeStatus::AIRING => "airing"@,
        AnimeStatus::COMPLETE => "complete"@,
        AnimeStatus::UPCOMING => "upcoming"@,
    }
}

/// The name the anime database uses for a ranking.
pub open spec fn anime_filter_name(f: AnimeFilter) -> Seq<char> {
    match f {
        AnimeFilter::AIRING => "airing"@,
        AnimeFilter::UPCOMING => "upcoming"@,
        AnimeFilter::POPULARITY => "bypopularity"@,
        AnimeFilter::FAVOURITE => "favourite"@,
    }
}

/// The name the anime database uses for a rating.
pub open spec fn anime_rating_name(r: AnimeRating) -> Seq<char> {
    match r {
        AnimeRating::G => "g"@,
        AnimeRating::PG => "pg"@,
        AnimeRating::PG13 => "pg13"@,
        AnimeRating::R17 => "r17"@,
        AnimeRating::R => "r"@,
        AnimeRating::Rx => "rx"@,
    }
}

impl AnimeType {
    /// The name the anime database uses for this kind.
    pub fn to_string(&self) -> (s: &str)
        ensures
            s@ == anime_type_name(*self),
    {
        match self {
            AnimeType::TV => "tv",
            AnimeType::MOVIE => "movie",
            AnimeType::OVA => "ova",
            AnimeType::SPECIAL => "special",
            AnimeType::ONA => "ona",
            AnimeType::MUSIC => "music",
            AnimeType::CM => "cm",
            AnimeType::PV => "pv",
            AnimeType::TvSpecial => "tv_special",
        }
    }
}

impl AnimeStatus {
    /// The name the anime database uses for this state.
    pub fn to_string(&self) -> (s: &str)
        ensures
            s@ == anime_status_name(*self),
    {
        match self {
            AnimeStatus::AIRING => "airing",
            AnimeStatus::COMPLETE => "complete",
            AnimeStatus::UPCOMING => "upcoming",
        }
    }
}

impl AnimeFilter {
    /// The name the anime database uses for this ranking.
    pub fn to_string(&self) -> (s: &str)
        ensures
            s@ == anime_filter_name(*self),
    {
        match self {
            AnimeFilter::AIRING => "airing",
            AnimeFilter::UPCOMING => "upcoming",
            AnimeFilter::POPULARITY => "bypopularity",
            AnimeFilter::FAVOURITE => "favourite",
        }
    }
}

impl AnimeRating {
    /// The name the anime database uses for this rating.
    pub fn to_string(&self) -> (s: &str)
        ensures
            s@ == anime_rating_name(*self),
    {
        match self {
            AnimeRating::G => "g",
            AnimeRating::PG => "pg",
            AnimeRating::PG13 => "pg13",
            AnimeRating::R17 => "r17",
            AnimeRating::R => "r",
            AnimeRating::Rx => "rx",
        }
    }
}

/// The value a kind takes in a query string: the name of its variant.
pub open spec fn anime_type_query_value(t: AnimeType) -> Seq<char> {
    match t {
        AnimeType::TV => "TV"@,
        AnimeType::MOVIE => "MOVIE"@,
        AnimeType::OVA => "OVA"@,
        AnimeType::SPECIAL => "SPECIAL"@,
        AnimeType::ONA => "ONA"@,
        AnimeType::MUSIC => "MUSIC"@,
        AnimeType::CM => "CM"@,
        AnimeType::PV => "PV"@,
        AnimeType::TvSpecial => "TvSpecial"@,
    }
}

/// The value a ranking takes in a query string: the name of its variant.
pub open spec fn anime_filter_query_value(f: AnimeFilter) -> Seq<char> {
    match f {
        AnimeFilter::AIRING => "AIRING"@,
        AnimeFilter::UPCOMING => "UPCOMING"@,
        AnimeFilter::POPULARITY => "POPULARITY"@,
        AnimeFilter::FAVOURITE => "FAVOURITE"@,
    }
}

/// The value a rating takes in a query string: the name of its variant.
pub open spec fn anime_rating_query_value(r: AnimeRating) -> Seq<char> {
    match r {
        AnimeRating::G => "G"@,
        AnimeRating::PG => "PG"@,
        AnimeRating::PG13 => "PG13"@,
        AnimeRating::R17 => "R17"@,
        AnimeRating::R => "R"@,
        AnimeRating::Rx => "Rx"@,
    }
}

/// The value a flag takes in a query string.
pub open spec fn bool_query_value(b: bool) -> Seq<char> {
    if b {
        "true"@
    } else {
        "false"@
    }
}

/// Query of the top-anime listing as clients send it.
#[derive(Debug, Clone, Copy, PartialEq, Eq)]
pub struct TopAnimeParams {
    pub anime_type: Option<AnimeType>,
    pub filter: Option<AnimeFilter>,
    pub rating: Option<AnimeRating>,
    pub sfw: Option<bool>,
    pub page: Option<u32>,
    pub limit: Option<u32>,
}

/// Query of the top-anime request to the anime database; absent parameters are left out.
#[derive(Debug, Clone, Copy, PartialEq, Eq)]
pub struct TopAnimeQuery {
    pub anime_type: Option<AnimeType>,
    pub filter: Option<AnimeFilter>,
    pub rating: Option<AnimeRating>,
    pub sfw: Option<bool>,
    pub page: Option<u32>,
    pub limit: Option<u32>,
}

/// A query parameter, when it has a value.
pub open spec fn parameter(key: Seq<char>, value: Option<Seq<char>>) -> Seq<(Seq<char>, Seq<char>)> {
    match value {
        Some(v) => seq![(key, v)],
        None => Seq::empty(),
    }
}

/// The parameters of a top-anime query, in the order type, filter, rating, sfw, page, limit.
pub open spec fn top_query_parameters(q: TopAnimeQuery) -> Seq<(Seq<char>, Seq<char>)> {
    parameter(
        "type"@,
        match q.anime_type {
            Some(t) => Some(anime_type_query_value(t)),
            None => None,
        },
    ) + parameter(
        "filter"@,
        match q.filter {
            Some(f) => Some(anime_filter_query_value(f)),
            None => None,
        },
    ) + parameter(
        "rating"@,
        match q.rating {
            Some(r) => Some(anime_rating_query_value(r)),
            None => None,
        },
    ) + parameter(
        "sfw"@,
        match q.sfw {
            Some(b) => Some(bool_query_value(b)),
            None => None,
        },
    ) + parameter(
        "page"@,
        match q.page {
            Some(p) => Some(decimal(p as int)),
            None => None,
        },
    ) + parameter(
        "limit"@,
        match q.limit {
            Some(l) => Some(decimal(l as int)),
            None => None,
        },
    )
}

proof fn lemma_contains_concat(a: Seq<(Seq<char>, Seq<char>)>, b: Seq<(Seq<char>, Seq<char>)>, x: (Seq<char>, Seq<char>))
    ensures
        (a + b).contains(x) <==> a.contains(x) || b.contains(x),
{
    if (a + b).contains(x) {
        let i = choose|i: int| 0 <= i < (a + b).len() && (a + b)[i] == x;
        if i < a.len() {
            assert(a[i] == x);
        } else {
            assert(b[i - a.len()] == x);
        }
    }
    if a.contains(x) {
        let i = choose|i: int| 0 <= i < a.len() && a[i] == x;
        assert((a + b)[i] == x);
    }
    if b.contains(x) {
        let i = choose|i: int| 0 <= i < b.len() && b[i] == x;
        assert((a + b)[a.len() + i] == x);
    }
}

proof fn lemma_parameter_contains(key: Seq<char>, value: Option<Seq<char>>, x: (Seq<char>, Seq<char>))
    ensures
        parameter(key, value).contains(x) <==> x.0 == key && value == Some(x.1),
{
    if parameter(key, value).contains(x) {
        assert(parameter(key, value)[0] == x);
    }
    if x.0 == key && value == Some(x.1) {
        assert(parameter(key, value)[0] == x);
    }
}

/// The value a top-anime query gives its `type` parameter, if any.
pub open spec fn type_value(q: TopAnimeQuery) -> Option<Seq<char>> {
    match q.anime_type {
        Some(t) => Some(anime_type_query_value(t)),
        None => None,
    }
}

/// The value a top-anime query gives its `filter` parameter, if any.
pub open spec fn filter_value(q: TopAnimeQuery) -> Option<Seq<char>> {
    match q.filter {
        Some(f) => Some(anime_filter_query_value(f)),
        None => None,
    }
}

/// The value a top-anime query gives its `rating` parameter, if any.
pub open spec fn rating_value(q: TopAnimeQuery) -> Option<Seq<char>> {
    match q.rating {
        Some(r) => Some(anime_rating_query_value(r)),
        None => None,
    }
}

/// The value a top-anime query gives its `sfw` parameter, if any.
pub open spec fn sfw_value(q: TopAnimeQuery) -> Option<Seq<char>> {
    match q.sfw {
        Some(b) => Some(bool_query_value(b)),
        None => None,
    }
}

/// The value a top-anime query gives its `page` parameter, if any.
pub open spec fn page_value(q: TopAnimeQuery) -> Option<Seq<char>> {
    match q.page {
        Some(p) => Some(decimal(p as int)),
        None => None,
    }
}

/// The value a top-anime query gives its `limit` parameter, if any.
pub open spec fn limit_value(q: TopAnimeQuery) -> Option<Seq<char>> {
    match q.limit {
        Some(l) => Some(decimal(l as int)),
        None => None,
    }
}

#[verifier::rlimit(30)]
proof fn lemma_top_query_contains(q: TopAnimeQuery, x: (Seq<char>, Seq<char>))
    ensures
        top_query_parameters(q).contains(x) <==> (x.0 == "type"@ && type_value(q) == Some(x.1))
            || (x.0 == "filter"@ && filter_value(q) == Some(x.1)) || (x.0 == "rating"@ && rating_value(q)
            == Some(x.1)) || (x.0 == "sfw"@ && sfw_value(q) == Some(x.1)) || (x.0 == "page"@
            && page_value(q) == Some(x.1)) || (x.0 == "limit"@ && limit_value(q) == Some(x.1)),
{
    let p1 = parameter("type"@, type_value(q));
    let p2 = parameter("filter"@, filter_value(q));
    let p3 = parameter("rating"@, rating_value(q));
    let p4 = parameter("sfw"@, sfw_value(q));
    let p5 = parameter("page"@, page_value(q));
    let p6 = parameter("limit"@, limit_value(q));
    assert(top_query_parameters(q) == p1 + p2 + p3 + p4 + p5 + p6);
    lemma_contains_concat(p1 + p2 + p3 + p4 + p5, p6, x);
    lemma_contains_concat(p1 + p2 + p3 + p4, p5, x);
    lemma_contains_concat(p1 + p2 + p3, p4, x);
    lemma_contains_concat(p1 + p2, p3, x);
    lemma_contains_concat(p1, p2, x);
    lemma_parameter_contains("type"@, type_value(q), x);
    lemma_parameter_contains("filter"@, filter_value(q), x);
    lemma_parameter_contains("rating"@, rating_value(q), x);
    lemma_parameter_contains("sfw"@, sfw_value(q), x);
    lemma_parameter_contains("page"@, page_value(q), x);
    lemma_parameter_contains("limit"@, limit_value(q), x);
}

/// A top-anime query sends each parameter that is given, under its own name and with its
/// value, and no parameter that is not given.
#[verifier::rlimit(30)]
pub proof fn lemma_top_query_sends_given_parameters(q: TopAnimeQuery, v: Seq<char>)
    ensures
        top_query_parameters(q).contains(("type"@, v)) <==> (q.anime_type matches Some(t) && v
            == anime_type_query_value(t)),
        top_query_parameters(q).contains(("filter"@, v)) <==> (q.filter matches Some(f) && v
            == anime_filter_query_value(f)),
        top_query_parameters(q).contains(("rating"@, v)) <==> (q.rating matches Some(r) && v
            == anime_rating_query_value(r)),
        top_query_parameters(q).contains(("sfw"@, v)) <==> (q.sfw matches Some(b) && v
            == bool_query_value(b)),
        top_query_parameters(q).contains(("page"@, v)) <==> (q.page matches Some(p) && v == decimal(
            p as int,
        )),
        top_query_parameters(q).contains(("limit"@, v)) <==> (q.limit matches Some(l) && v
            == decimal(l as int)),
{
    reveal_strlit("type");
    reveal_strlit("filter");
    reveal_strlit("rating");
    reveal_strlit("sfw");
    reveal_strlit("page");
    reveal_strlit("limit");
    assert("type"@.len() == 4 && "page"@.len() == 4 && "sfw"@.len() == 3 && "limit"@.len() == 5);
    assert("filter"@.len() == 6 && "rating"@.len() == 6);
    assert("type"@[0] != "page"@[0]);
    assert("filter"@[0] != "rating"@[0]);
    lemma_top_query_contains(q, ("type"@, v));
    lemma_top_query_contains(q, ("filter"@, v));
    lemma_top_query_contains(q, ("rating"@, v));
    lemma_top_query_contains(q, ("sfw"@, v));
    lemma_top_query_contains(q, ("page"@, v));
    lemma_top_query_contains(q, ("limit"@, v));
}

/// The texts of a list of query parameters.
pub open spec fn parameters_view(v: Seq<(String, String)>) -> Seq<(Seq<char>, Seq<char>)> {
    v.map_values(|p: (String, String)| (p.0@, p.1@))
}

fn push_parameter(pairs: &mut Vec<(String, String)>, key: &str, value: Option<String>)
    ensures
        parameters_view(final(pairs)@) == parameters_view(old(pairs)@) + parameter(
            key@,
            crate::text::opt_view(value),
        ),
{
    match value {
        Some(v) => {
            let ghost before = pairs@;
            pairs.push((String::from_str(key), v));
            assert(parameters_view(pairs@) =~= parameters_view(before) + parameter(
                key@,
                crate::text::opt_view(value),
            ));
        },
        None => {
            assert(parameters_view(pairs@) =~= parameters_view(pairs@) + parameter(
                key@,
                crate::text::opt_view(value),
            ));
        },
    }
}

fn decimal_string(n: u32) -> (s: String)
    ensures
        s@ == decimal(n as int),
{
    let mut s = String::new();
    push_decimal(&mut s, n as i64);
    assert(s@ =~= decimal(n as int));
    s
}

impl TopAnimeQuery {
    /// The query for the parameters a client sent.
    pub fn from_params(params: TopAnimeParams) -> (q: TopAnimeQuery)
        ensures
            q.anime_type == params.anime_type,
            q.filter == params.filter,
            q.rating == params.rating,
            q.sfw == params.sfw,
            q.page == params.page,
            q.limit == params.limit,
    {
        TopAnimeQuery {
            anime_type: params.anime_type,
            filter: params.filter,
            rating: params.rating,
            sfw: params.sfw,
            page: params.page,
            limit: params.limit,
        }
    }

    /// The query string parameters of the request, as key and value.
    pub fn query_pairs(&self) -> (pairs: Vec<(String, String)>)
        ensures
            parameters_view(pairs@) == top_query_parameters(*self),
    {
        let mut pairs: Vec<(String, String)> = Vec::new();
        let t = match self.anime_type {
            Some(t) => Some(String::from_str(anime_type_value(t))),
            None => None,
        };
        push_parameter(&mut pairs, "type", t);
        let f = match self.filter {
            Some(f) => Some(String::from_str(anime_filter_value(f))),
            None => None,
        };
        push_parameter(&mut pairs, "filter", f);
        let r = match self.rating {
            Some(r) => Some(String::from_str(anime_rating_value(r))),
            None => None,
        };
        push_parameter(&mut pairs, "rating", r);
        let b = match self.sfw {
            Some(b) => Some(String::from_str(if b { "true" } else { "false" })),
            None => None,
        };
        push_parameter(&mut pairs, "sfw", b);
        let p = match self.page {
            Some(p) => Some(decimal_string(p)),
            None => None,
        };
        push_parameter(&mut pairs, "page", p);
        let l = match self.limit {
            Some(l) => Some(decimal_string(l)),
            None => None,
        };
        push_parameter(&mut pairs, "limit", l);
        assert(parameters_view(pairs@) =~= top_query_parameters(*self));
        pairs
    }
}

fn anime_type_value(t: AnimeType) -> (s: &'static str)
    ensures
        s@ == anime_type_query_value(t),
{
    match t {
        AnimeType::TV => "TV",
        AnimeType::MOVIE => "MOVIE",
        AnimeType::OVA => "OVA",
        AnimeType::SPECIAL => "SPECIAL",
        AnimeType::ONA => "ONA",
        AnimeType::MUSIC => "MUSIC",
        AnimeType::CM => "CM",
        AnimeType::PV => "PV",
        AnimeType::TvSpecial => "TvSpecial",
    }
}

fn anime_filter_value(f: AnimeFilter) -> (s: &'static str)
    ensures
        s@ == anime_filter_query_value(f),
{
    match f {
        AnimeFilter::AIRING => "AIRING",
        AnimeFilter::UPCOMING => "UPCOMING",
        AnimeFilter::POPULARITY => "POPULARITY",
        AnimeFilter::FAVOURITE => "FAVOURITE",
    }
}

fn anime_rating_value(r: AnimeRating) -> (s: &'static str)
    ensures
        s@ == anime_rating_query_value(r),
{
    match r {
        AnimeRating::G => "G",
        AnimeRating::PG => "PG",
        AnimeRating::PG13 => "PG13",
        AnimeRating::R17 => "R17",
        AnimeRating::R => "R",
        AnimeRating::Rx => "Rx",
    }
}

/// Each kind is sent under the name of its variant.
pub proof fn lemma_type_query_value_is_variant_name(t: AnimeType)
    ensures
        t == AnimeType::TV ==> anime_type_query_value(t) == "TV"@,
        t == AnimeType::MOVIE ==> anime_type_query_value(t) == "MOVIE"@,
        t == AnimeType::OVA ==> anime_type_query_value(t) == "OVA"@,
        t == AnimeType::SPECIAL ==> anime_type_query_value(t) == "SPECIAL"@,
        t == AnimeType::ONA ==> anime_type_query_value(t) == "ONA"@,
        t == AnimeType::MUSIC ==> anime_type_query_value(t) == "MUSIC"@,
        t == AnimeType::CM ==> anime_type_query_value(t) == "CM"@,
        t == AnimeType::PV ==> anime_type_query_value(t) == "PV"@,
        t == AnimeType::TvSpecial ==> anime_type_query_value(t) == "TvSpecial"@,
{
}

/// Distinct kinds are sent as distinct query values.
pub proof fn lemma_type_query_value_injective(a: AnimeType, b: AnimeType)
    ensures
        anime_type_query_value(a) == anime_type_query_value(b) ==> a == b,
{
    reveal_strlit("TV");
    reveal_strlit("MOVIE");
    reveal_strlit("OVA");
    reveal_strlit("SPECIAL");
    reveal_strlit("ONA");
    reveal_strlit("MUSIC");
    reveal_strlit("CM");
    reveal_strlit("PV");
    reveal_strlit("TvSpecial");
    let va = anime_type_query_value(a);
    let vb = anime_type_query_value(b);
    if va == vb {
        assert(va.len() == vb.len());
        if va.len() > 0 { assert(va[0] == vb[0]); }
        if va.len() > 1 { assert(va[1] == vb[1]); }
        if va.len() > 2 { assert(va[2] == vb[2]); }
    }
}

/// Each ranking is sent under the name of its variant.
pub proof fn lemma_filter_query_value_is_variant_name(x: AnimeFilter)
    ensures
        x == AnimeFilter::AIRING ==> anime_filter_query_value(x) == "AIRING"@,
        x == AnimeFilter::UPCOMING ==> anime_filter_query_value(x) == "UPCOMING"@,
        x == AnimeFilter::POPULARITY ==> anime_filter_query_value(x) == "POPULARITY"@,
        x == AnimeFilter::FAVOURITE ==> anime_filter_query_value(x) == "FAVOURITE"@,
{
}

/// Distinct rankings are sent as distinct query values.
pub proof fn lemma_filter_query_value_injective(a: AnimeFilter, b: AnimeFilter)
    ensures
        anime_filter_query_value(a) == anime_filter_query_value(b) ==> a == b,
{
    reveal_strlit("AIRING");
    reveal_strlit("FAVOURITE");
    reveal_strlit("POPULARITY");
    reveal_strlit("UPCOMING");
    let va = anime_filter_query_value(a);
    let vb = anime_filter_query_value(b);
    if va == vb {
        assert(va.len() == vb.len());
        if va.len() > 0 {
            assert(va[0] == vb[0]);
        }
        if va.len() > 1 {
            assert(va[1] == vb[1]);
        }
        if va.len() > 2 {
            assert(va[2] == vb[2]);
        }
    }
}

/// Each rating is sent under the name of its variant.
pub proof fn lemma_rating_query_value_is_variant_name(x: AnimeRating)
    ensures
        x == AnimeRating::G ==> anime_rating_query_value(x) == "G"@,
        x == AnimeRating::PG ==> anime_rating_query_value(x) == "PG"@,
        x == AnimeRating::PG13 ==> anime_rating_query_value(x) == "PG13"@,
        x == AnimeRating::R17 ==> anime_rating_query_value(x) == "R17"@,
        x == AnimeRating::R ==> anime_rating_query_value(x) == "R"@,
        x == AnimeRating::Rx ==> anime_rating_query_value(x) == "Rx"@,
{
}

/// Distinct ratings are sent as distinct query values.
pub proof fn lemma_rating_query_value_injective(a: AnimeRating, b: AnimeRating)
    ensures
        anime_rating_query_value(a) == anime_rating_query_value(b) ==> a == b,
{
    reveal_strlit("G");
    reveal_strlit("PG");
    reveal_strlit("PG13");
    reveal_strlit("R");
    reveal_strlit("R17");
    reveal_strlit("Rx");
    let va = anime_rating_query_value(a);
    let vb = anime_rating_query_value(b);
    if va == vb {
        assert(va.len() == vb.len());
        if va.len() > 0 {
            assert(va[0] == vb[0]);
        }
        if va.len() > 1 {
            assert(va[1] == vb[1]);
        }
        if va.len() > 2 {
            assert(va[2] == vb[2]);
        }
    }
}

/// A flag is sent as `true` or `false`, and the two are told apart.
pub proof fn lemma_bool_query_value(b: bool)
    ensures
        b ==> bool_query_value(b) == "true"@,
        !b ==> bool_query_value(b) == "false"@,
        bool_query_value(true) != bool_query_value(false),
{
    reveal_strlit("true");
    reveal_strlit("false");
    assert("true"@.len() != "false"@.len());
}

/// The anime database's name of each kind.
pub proof fn lemma_type_name_table(x: AnimeType)
    ensures
        x == AnimeType::TV ==> anime_type_name(x) == "tv"@,
        x == AnimeType::MOVIE ==> anime_type_name(x) == "movie"@,
        x == AnimeType::OVA ==> anime_type_name(x) == "ova"@,
        x == AnimeType::SPECIAL ==> anime_type_name(x) == "special"@,
        x == AnimeType::ONA ==> anime_type_name(x) == "ona"@,
        x == AnimeType::MUSIC ==> anime_type_name(x) == "music"@,
        x == AnimeType::CM ==> anime_type_name(x) == "cm"@,
        x == AnimeType::PV ==> anime_type_name(x) == "pv"@,
        x == AnimeType::TvSpecial ==> anime_type_name(x) == "tv_special"@,
{
}

/// Distinct kinds have distinct names.
pub proof fn lemma_type_name_injective(a: AnimeType, b: AnimeType)
    ensures
        anime_type_name(a) == anime_type_name(b) ==> a == b,
{
    reveal_strlit("cm");
    reveal_strlit("movie");
    reveal_strlit("music");
    reveal_strlit("ona");
    reveal_strlit("ova");
    reveal_strlit("pv");
    reveal_strlit("special");
    reveal_strlit("tv");
    reveal_strlit("tv_special");
    let va = anime_type_name(a);
    let vb = anime_type_name(b);
    if va == vb {
        assert(va.len() == vb.len());
        if va.len() > 0 {
            assert(va[0] == vb[0]);
        }
        if va.len() > 1 {
            assert(va[1] == vb[1]);
        }
        if va.len() > 2 {
            assert(va[2] == vb[2]);
        }
    }
}

/// The anime database's name of each airing state.
pub proof fn lemma_status_name_table(x: AnimeStatus)
    ensures
        x == AnimeStatus::AIRING ==> anime_status_name(x) == "airing"@,
        x == AnimeStatus::COMPLETE ==> anime_status_name(x) == "complete"@,
        x == AnimeStatus::UPCOMING ==> anime_status_name(x) == "upcoming"@,
{
}

/// Distinct airing states have distinct names.
pub proof fn lemma_status_name_injective(a: AnimeStatus, b: AnimeStatus)
    ensures
        anime_status_name(a) == anime_status_name(b) ==> a == b,
{
    reveal_strlit("airing");
    reveal_strlit("complete");
    reveal_strlit("upcoming");
    let va = anime_status_name(a);
    let vb = anime_status_name(b);
    if va == vb {
        assert(va.len() == vb.len());
        if va.len() > 0 {
            assert(va[0] == vb[0]);
        }
        if va.len() > 1 {
            assert(va[1] == vb[1]);
        }
        if va.len() > 2 {
            assert(va[2] == vb[2]);
        }
    }
}

/// The anime database's name of each ranking.
pub proof fn lemma_filter_name_table(x: AnimeFilter)
    ensures
        x == AnimeFilter::AIRING ==> anime_filter_name(x) == "airing"@,
        x == AnimeFilter::UPCOMING ==> anime_filter_name(x) == "upcoming"@,
        x == AnimeFilter::POPULARITY ==> anime_filter_name(x) == "bypopularity"@,
        x == AnimeFilter::FAVOURITE ==> anime_filter_name(x) == "favourite"@,
{
}

/// Distinct rankings have distinct names.
pub proof fn lemma_filter_name_injective(a: AnimeFilter, b: AnimeFilter)
    ensures
        anime_filter_name(a) == anime_filter_name(b) ==> a == b,
{
    reveal_strlit("airing");
    reveal_strlit("bypopularity");
    reveal_strlit("favourite");
    reveal_strlit("upcoming");
    let va = anime_filter_name(a);
    let vb = anime_filter_name(b);
    if va == vb {
        assert(va.len() == vb.len());
        if va.len() > 0 {
            assert(va[0] == vb[0]);
        }
        if va.len() > 1 {
            assert(va[1] == vb[1]);
        }
        if va.len() > 2 {
            assert(va[2] == vb[2]);
        }
    }
}

/// The anime database's name of each rating.
pub proof fn lemma_rating_name_table(x: AnimeRating)
    ensures
        x == AnimeRating::G ==> anime_rating_name(x) == "g"@,
        x == AnimeRating::PG ==> anime_rating_name(x) == "pg"@,
        x == AnimeRating::PG13 ==> anime_rating_name(x) == "pg13"@,
        x == AnimeRating::R17 ==> anime_rating_name(x) == "r17"@,
        x == AnimeRating::R ==> anime_rating_name(x) == "r"@,
        x == AnimeRating::Rx ==> anime_rating_name(x) == "rx"@,
{
}

/// Distinct ratings have distinct names.
pub proof fn lemma_rating_name_injective(a: AnimeRating, b: AnimeRating)
    ensures
        anime_rating_name(a) == anime_rating_name(b) ==> a == b,
{
    reveal_strlit("g");
    reveal_strlit("pg");
    reveal_strlit("pg13");
    reveal_strlit("r");
    reveal_strlit("r17");
    reveal_strlit("rx");
    let va = anime_rating_name(a);
    let vb = anime_rating_name(b);
    if va == vb {
        assert(va.len() == vb.len());
        if va.len() > 0 {
            assert(va[0] == vb[0]);
        }
        if va.len() > 1 {
            assert(va[1] == vb[1]);
        }
        if va.len() > 2 {
            assert(va[2] == vb[2]);
        }
    }
}

/// The address of an anime in the anime database.
pub fn anime_url(base: &str, id: i32) -> (u: String)
    ensures
        u@ == base@ + "/anime/"@ + decimal(id as int),
{
    let mut u = String::from_str(base);
    u.append("/anime/");
    push_decimal(&mut u, id as i64);
    u
}

/// The address of the characters of an anime in the anime database.
pub fn anime_characters_url(base: &str, id: i32) -> (u: String)
    ensures
        u@ == base@ + "/anime/"@ + decimal(id as int) + "/characters"@,
{
    let mut u = anime_url(base, id);
    u.append("/characters");
    u
}

/// The address of the anime search of the anime database; the query goes in the `q` parameter.
pub fn anime_search_url(base: &str) -> (u: String)
    ensures
        u@ == base@ + "/anime"@,
{
    let mut u = String::from_str(base);
    u.append("/anime");
    u
}

/// The address of a random anime in the anime database.
pub fn random_anime_url(base: &str) -> (u: String)
    ensures
        u@ == base@ + "/random/anime/"@,
{
    let mut u = String::from_str(base);
    u.append("/random/anime/");
    u
}

/// The address of the top-anime listing of the anime database.
pub fn top_anime_url(base: &str) -> (u: String)
    ensures
        u@ == base@ + "/top/anime/"@,
{
    let mut u = String::from_str(base);
    u.append("/top/anime/");
    u
}

/// How an HTTP status code is displayed: the code and its reason phrase.
pub uninterp spec fn status_text(code: u16) -> Seq<char>;

/// `Display` of `reqwest::StatusCode` (the `http` crate's type) for a code it accepts. The
/// contract names the text `status_text` of the code and claims of it only what the crate's
/// `Display` shows: it starts with the code in decimal and a space; the reason phrase that
/// follows is left unsaid.
#[verifier::external_body]
fn status_display(code: u16) -> (r: String)
    requires
        100 <= code <= 999,
    ensures
        r@ == status_text(code),
        r@.len() >= decimal(code as int).len() + 1,
        r@.take(decimal(code as int).len() + 1int) == decimal(code as int) + seq![' '],
{
    match reqwest::StatusCode::from_u16(code) {
        Ok(status) => status.to_string(),
        Err(_) => String::new(),
    }
}

/// The view of an optional error.
pub open spec fn error_view(e: Option<ApiError>) -> Option<ApiErrorView> {
    match e {
        Some(e) => Some(e@),
        None => None,
    }
}

/// What a reply of the anime database about the anime `id` means, when `text` is how its
/// status is displayed: nothing wrong for 200, else the error to answer.
pub open spec fn lookup_failure(status: u16, id: int, text: Seq<char>) -> Option<ApiErrorView> {
    if status == 200 {
        None
    } else if status == 404 {
        Some(ApiErrorView::NotFound("Anime ID "@ + decimal(id) + " not found in Jikan"@))
    } else if status == 429 {
        Some(ApiErrorView::TooManyRequests("Jikan rate limit hit"@))
    } else {
        Some(ApiErrorView::BadGateway("Jikan returned status: "@ + text))
    }
}

/// What a reply of the anime database to a listing means, when `text` is how its status is
/// displayed.
pub open spec fn listing_failure(status: u16, text: Seq<char>) -> Option<ApiErrorView> {
    if status == 200 {
        None
    } else if status == 429 {
        Some(ApiErrorView::TooManyRequests("Jikan rate limit hit"@))
    } else {
        Some(ApiErrorView::BadGateway("Jikan returned "@ + text))
    }
}

/// A reply of the anime database is a failure exactly when its status is not 200. A refusal for
/// load (429) is answered alike for a lookup and a listing; a lookup of an anime the database
/// does not know (404) is answered as not found, naming the anime; every other failure is a bad
/// gateway whose text ends with how the status is displayed.
pub proof fn lemma_reply_outcomes(status: u16, id: int, text: Seq<char>)
    ensures
        lookup_failure(status, id, text) is None <==> status == 200,
        listing_failure(status, text) is None <==> status == 200,
        status == 429 ==> lookup_failure(status, id, text) == listing_failure(status, text),
        status == 429 ==> listing_failure(status, text) == Some(
            ApiErrorView::TooManyRequests("Jikan rate limit hit"@),
        ),
        status == 404 ==> lookup_failure(status, id, text) == Some(
            ApiErrorView::NotFound("Anime ID "@ + decimal(id) + " not found in Jikan"@),
        ),
        status != 200 && status != 404 && status != 429 ==> (lookup_failure(status, id, text) matches Some(
            ApiErrorView::BadGateway(m),
        ) && m.len() >= text.len() && m.subrange(m.len() - text.len(), m.len() as int) == text),
        status != 200 && status != 429 ==> (listing_failure(status, text) matches Some(
            ApiErrorView::BadGateway(m),
        ) && m.len() >= text.len() && m.subrange(m.len() - text.len(), m.len() as int) == text),
{
    let a = "Jikan returned status: "@ + text;
    let b = "Jikan returned "@ + text;
    assert(a.subrange(a.len() - text.len(), a.len() as int) =~= text);
    assert(b.subrange(b.len() - text.len(), b.len() as int) =~= text);
}

/// The error for a reply about the anime `id` with status `status`, displayed as `text`.
pub fn lookup_failure_for(status: u16, id: i32, text: &str) -> (r: Option<ApiError>)
    ensures
        error_view(r) == lookup_failure(status, id as int, text@),
{
    if status == 200 {
        None
    } else if status == 404 {
        let mut msg = String::from_str("Anime ID ");
        push_decimal(&mut msg, id as i64);
        msg.append(" not found in Jikan");
        Some(ApiError::NotFound(msg))
    } else if status == 429 {
        Some(ApiError::TooManyRequests(String::from_str("Jikan rate limit hit")))
    } else {
        let mut msg = String::from_str("Jikan returned status: ");
        msg.append(text);
        Some(ApiError::BadGateway(msg))
    }
}

/// The error for a reply about the anime `id` with status `status`, if it is not a success.
pub fn lookup_status_error(status: u16, id: i32) -> (r: Option<ApiError>)
    requires
        100 <= status <= 999,
    ensures
        error_view(r) == lookup_failure(status, id as int, status_text(status)),
{
    let text = status_display(status);
    lookup_failure_for(status, id, text.as_str())
}

/// The error for a reply to a listing with status `status`, displayed as `text`.
pub fn listing_failure_for(status: u16, text: &str) -> (r: Option<ApiError>)
    ensures
        error_view(r) == listing_failure(status, text@),
{
    if status == 200 {
        None
    } else if status == 429 {
        Some(ApiError::TooManyRequests(String::from_str("Jikan rate limit hit")))
    } else {
        let mut msg = String::from_str("Jikan returned ");
        msg.append(text);
        Some(ApiError::BadGateway(msg))
    }
}

/// The error for a reply to a listing with status `status`, if it is not a success.
pub fn listing_status_error(status: u16) -> (r: Option<ApiError>)
    requires
        100 <= status <= 999,
    ensures
        error_view(r) == listing_failure(status, status_text(status)),
{
    let text = status_display(status);
    listing_failure_for(status, text.as_str())
}

} // verus!
