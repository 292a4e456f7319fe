use rust_server::catalog::{anime_not_found, anime_update_target_missing, check_new_anime, AnimeChanges};
use rust_server::errors::ApiError;
use rust_server::groups::{deletion_outcome as group_deletion_outcome, found_group, parse_group_id, Group, GroupCreate, GroupDTO, GroupField, GroupUpdate};
use rust_server::ids::DocId;
use rust_server::jikan::{
    anime_characters_url, anime_url, listing_failure_for, listing_status_error, lookup_failure_for, lookup_status_error,
    random_anime_url, top_anime_url, AnimeFilter, AnimeRating, AnimeStatus, AnimeType, TopAnimeParams, TopAnimeQuery,
};
use rust_server::producers::{
    found_producer, producer_ids, producer_missing, producer_record, unique_producers, update_fields, CommonMalResponse,
    ProducerDTO, ProducerField, UpdateProducerRequest,
};
use rust_server::users::{
    check_sign_in, deletion_outcome as user_deletion_outcome, group_ids, new_user, parse_user_id, prepare_sign_up,
    sign_in_decision, User, UserCreate, UserField, UserSignIn, UserSignUp, UserUpdate,
};

fn mal(id: u32, name: &str) -> CommonMalResponse {
    CommonMalResponse { mal_id: id, kind: "anime".to_string(), name: name.to_string(), url: format!("https://mal/{}", id) }
}

fn id(hex: &str) -> DocId {
    DocId::parse(hex).unwrap()
}

#[test]
fn to_string_names() {
    assert_eq!(AnimeType::TV.to_string(), "tv");
    assert_eq!(AnimeType::TvSpecial.to_string(), "tv_special");
    assert_eq!(AnimeType::MOVIE.to_string(), "movie");
    assert_eq!(AnimeStatus::COMPLETE.to_string(), "complete");
    assert_eq!(AnimeStatus::AIRING.to_string(), "airing");
    assert_eq!(AnimeFilter::POPULARITY.to_string(), "bypopularity");
    assert_eq!(AnimeFilter::FAVOURITE.to_string(), "favourite");
    assert_eq!(AnimeRating::PG13.to_string(), "pg13");
    assert_eq!(AnimeRating::Rx.to_string(), "rx");
}

#[test]
fn top_query_lists_present_parameters_in_order() {
    let q = TopAnimeQuery::from_params(TopAnimeParams {
        anime_type: Some(AnimeType::TvSpecial),
        filter: None,
        rating: Some(AnimeRating::PG13),
        sfw: Some(false),
        page: Some(2),
        limit: Some(25),
    });
    let pairs: Vec<(String, String)> = q.query_pairs();
    let expected: Vec<(String, String)> = vec![
        ("type".into(), "TvSpecial".into()),
        ("rating".into(), "PG13".into()),
        ("sfw".into(), "false".into()),
        ("page".into(), "2".into()),
        ("limit".into(), "25".into()),
    ];
    assert_eq!(pairs, expected);
    let empty = TopAnimeQuery::from_params(TopAnimeParams { anime_type: None, filter: None, rating: None, sfw: None, page: None, limit: None });
    assert!(empty.query_pairs().is_empty());
    let f = TopAnimeQuery::from_params(TopAnimeParams { anime_type: None, filter: Some(AnimeFilter::AIRING), rating: None, sfw: Some(true), page: None, limit: None });
    assert_eq!(f.query_pairs(), vec![("filter".to_string(), "AIRING".to_string()), ("sfw".to_string(), "true".to_string())]);
}

#[test]
fn database_addresses() {
    assert_eq!(anime_url("https://api.jikan.moe/v4", 21), "https://api.jikan.moe/v4/anime/21");
    assert_eq!(anime_characters_url("http://x", -3), "http://x/anime/-3/characters");
    assert_eq!(random_anime_url("http://x"), "http://x/random/anime/");
    assert_eq!(top_anime_url("http://x"), "http://x/top/anime/");
}

#[test]
fn lookup_statuses() {
    assert_eq!(lookup_status_error(200, 5), None);
    assert_eq!(lookup_status_error(404, 5), Some(ApiError::NotFound("Anime ID 5 not found in Jikan".to_string())));
    assert_eq!(lookup_status_error(429, 5), Some(ApiError::TooManyRequests("Jikan rate limit hit".to_string())));
    assert_eq!(
        lookup_status_error(503, 5),
        Some(ApiError::BadGateway("Jikan returned status: 503 Service Unavailable".to_string()))
    );
    assert_eq!(lookup_failure_for(500, 1, "x"), Some(ApiError::BadGateway("Jikan returned status: x".to_string())));
}

#[test]
fn listing_statuses() {
    assert_eq!(listing_status_error(200), None);
    assert_eq!(listing_status_error(429), Some(ApiError::TooManyRequests("Jikan rate limit hit".to_string())));
    assert_eq!(listing_status_error(404), Some(ApiError::BadGateway("Jikan returned 404 Not Found".to_string())));
    assert_eq!(listing_failure_for(599, "599 <unknown status code>"), Some(ApiError::BadGateway("Jikan returned 599 <unknown status code>".to_string())));
}

#[test]
fn producers_deduplicated_in_first_seen_order() {
    let lists = vec![vec![mal(1, "A"), mal(2, "B")], vec![], vec![mal(2, "B2"), mal(3, "C"), mal(1, "A2")]];
    let unique = unique_producers(&lists);
    let names: Vec<&str> = unique.iter().map(|p| p.name.as_str()).collect();
    assert_eq!(names, vec!["A", "B", "C"]);
    assert!(unique_producers(&vec![]).is_empty());
}

#[test]
fn producer_ids_and_records() {
    assert_eq!(producer_ids(&vec![mal(7, "x"), mal(9, "y"), mal(7, "z")]), vec![7, 9, 7]);
    let r = producer_record(&mal(12, "Bones"));
    assert_eq!(r.id, None);
    assert_eq!((r.mal_id, r.name.as_str(), r.url.as_deref()), (12, "Bones", Some("https://mal/12")));
}

#[test]
fn producer_edit_marks_manual_edit_first() {
    let f = update_fields(UpdateProducerRequest { name: Some("N".to_string()), url: None });
    assert_eq!(f.len(), 2);
    assert!(matches!(f[0], ProducerField::ManuallyEdited(true)));
    assert!(matches!(&f[1], ProducerField::Name(n) if n == "N"));
    let f = update_fields(UpdateProducerRequest { name: None, url: None });
    assert_eq!(f.len(), 1);
    let f = update_fields(UpdateProducerRequest { name: Some("a".into()), url: Some("u".into()) });
    assert!(matches!(&f[2], ProducerField::Url(u) if u == "u"));
}

#[test]
fn producer_lookups() {
    let p = ProducerDTO { id: None, mal_id: 3, name: "S".to_string(), url: None };
    assert_eq!(found_producer(Some(p), 3).unwrap().name, "S");
    assert_eq!(found_producer(None, -4).unwrap_err(), ApiError::NotFound("Producer with mal_id -4 not found".to_string()));
    assert_eq!(producer_missing(77), ApiError::NotFound("Producer 77 not found".to_string()));
}

#[test]
fn anime_decisions() {
    assert_eq!(anime_not_found(9), ApiError::NotFound("Anime 9 not found".to_string()));
    assert_eq!(anime_update_target_missing(9), ApiError::NotFound("Anime with id 9 not found".to_string()));
    assert_eq!(check_new_anime(false, 1), Ok(()));
    assert_eq!(check_new_anime(true, 5114), Err(ApiError::Conflict("Anime with mal_id 5114 already exists".to_string())));
}

#[test]
fn anime_update_keys() {
    let none = AnimeChanges {
        url: false, titles: false, anime_type: false, episodes: false, status: false, airing: false, rating: false,
        score: false, scored_by: false, rank: false, popularity: false, synopsis: false, background: false,
        year: false, genres: false, studios: false, producers: false,
    };
    assert_eq!(none.set_keys(), Err(ApiError::BadRequest("No fields to update".to_string())));
    let some = AnimeChanges { anime_type: true, score: true, producers: true, ..none };
    assert_eq!(some.set_keys(), Ok(vec!["type".to_string(), "score".to_string(), "producer_ids".to_string()]));
}

#[test]
fn group_creation_and_insert_id() {
    let g = Group::from_create(GroupCreate { name: "mods".to_string(), permissions: vec!["list_users".to_string()] });
    assert_eq!(g.id, None);
    let dto = GroupDTO::from_inserted(g, Some(id("507f1f77bcf86cd799439011"))).unwrap();
    assert_eq!(dto.id, Some(id("507f1f77bcf86cd799439011")));
    assert_eq!(dto.name, "mods");
    let g = Group::from_create(GroupCreate { name: "x".to_string(), permissions: vec![] });
    assert_eq!(GroupDTO::from_inserted(g, None).unwrap_err(), ApiError::InternalServer("Failed to get inserted id".to_string()));
    let back = GroupDTO::from_group(Group { id: None, name: "y".to_string(), permissions: vec![] });
    assert_eq!(back.name, "y");
}

#[test]
fn group_update_fields() {
    let f = GroupUpdate { name: Some("n".to_string()), permissions: Some(vec!["p".to_string()]) }.set_fields().unwrap();
    assert_eq!(f.len(), 2);
    assert!(matches!(&f[0], GroupField::Name(n) if n == "n"));
    assert!(matches!(&f[1], GroupField::Permissions(p) if p == &vec!["p".to_string()]));
    let err = GroupUpdate { name: None, permissions: None }.set_fields().unwrap_err();
    assert_eq!(err, ApiError::BadRequest("No fields to update".to_string()));
}

#[test]
fn group_lookups() {
    assert_eq!(found_group(None).unwrap_err(), ApiError::NotFound("Group not found".to_string()));
    assert_eq!(group_deletion_outcome(0), Err(ApiError::NotFound("Group not found".to_string())));
    assert_eq!(group_deletion_outcome(1), Ok(()));
    assert_eq!(parse_group_id("zz"), Err(ApiError::BadRequest("Invalid group id".to_string())));
    assert_eq!(parse_group_id("507f1f77bcf86cd799439011"), Ok(id("507f1f77bcf86cd799439011")));
}

#[test]
fn user_update_ignores_password() {
    let u = UserUpdate { username: None, password: Some("secret".to_string()), email: Some("e".to_string()), groups: None };
    let f = u.set_fields().unwrap();
    assert_eq!(f.len(), 1);
    assert!(matches!(&f[0], UserField::Email(e) if e == "e"));
    let only_password = UserUpdate { username: None, password: Some("x".to_string()), email: None, groups: None };
    assert_eq!(only_password.set_fields().unwrap_err(), ApiError::BadRequest("No fields to update".to_string()));
}

#[test]
fn user_id_and_deletion() {
    assert_eq!(parse_user_id("bad", "Invalid user ID"), Err(ApiError::BadRequest("Invalid user ID".to_string())));
    assert_eq!(user_deletion_outcome(0), Err(ApiError::NotFound("User not found".to_string())));
    assert_eq!(user_deletion_outcome(2), Ok(()));
}

#[test]
fn group_ids_skip_unstored_groups() {
    let a = id("507f1f77bcf86cd799439011");
    let b = id("65a1b2c3d4e5f60718293a4b");
    let groups = vec![
        Group { id: Some(a), name: "a".into(), permissions: vec![] },
        Group { id: None, name: "b".into(), permissions: vec![] },
        Group { id: Some(b), name: "c".into(), permissions: vec![] },
    ];
    assert_eq!(group_ids(&groups), vec![a, b]);
}

#[test]
fn sign_up_refuses_existing_account() {
    let dto = UserSignUp { username: "ann".into(), email: "a@x".into(), password: "pw".into() };
    assert_eq!(prepare_sign_up(true, dto).unwrap_err(), ApiError::BadRequest("User already exists".to_string()));
}

#[test]
fn signed_up_password_signs_in() {
    let dto = UserSignUp { username: "ann".into(), email: "a@x".into(), password: "correct horse".into() };
    let mut user = prepare_sign_up(false, dto).unwrap();
    assert_eq!(user.username, "ann");
    assert!(user.groups.is_empty());
    assert_ne!(user.password, "correct horse");
    assert_eq!(user.password.len(), 60);
    assert!(user.password.starts_with("$2b$12$"));
    let stored = id("507f1f77bcf86cd799439011");
    user.id = Some(stored);
    let creds = UserSignIn { username_or_email: "ann".into(), password: "correct horse".into() };
    let (granted, u) = check_sign_in(Some(user), &creds).unwrap();
    assert_eq!(granted, stored);
    assert_eq!(u.email, "a@x");
}

#[test]
fn sign_in_refusals() {
    let pw = UserSignIn { username_or_email: "bo".into(), password: "pw".into() };
    let wrong = UserSignIn { username_or_email: "bo".into(), password: "wrong".into() };
    assert_eq!(check_sign_in(None, &pw).unwrap_err(), ApiError::BadRequest("Wrong email or password".to_string()));
    let created = new_user(UserCreate { username: "bo".into(), password: "pw".into(), email: "b@x".into(), groups: None }).unwrap();
    assert!(created.groups.is_empty());
    assert_eq!(created.password.len(), 60);
    assert!(created.password.starts_with("$2b$12$"));
    assert_ne!(created.password, "pw");
    let user = User { id: Some(id("507f1f77bcf86cd799439011")), ..created };
    assert_eq!(check_sign_in(Some(user), &wrong).unwrap_err(), ApiError::BadRequest("Wrong email or password".to_string()));
    let broken = User { id: None, username: "c".into(), email: "c".into(), password: "not a hash".into(), groups: vec![], last_login: None };
    assert_eq!(check_sign_in(Some(broken), &pw).unwrap_err(), ApiError::InternalServer("bcrypt error".to_string()));
}

#[test]
fn sign_in_decision_needs_stored_account() {
    let user = User { id: None, username: "d".into(), email: "d".into(), password: String::new(), groups: vec![], last_login: None };
    assert_eq!(sign_in_decision(user, Some(true)).unwrap_err(), ApiError::BadRequest("User does not exist".to_string()));
}

#[test]
fn unknown_account_and_wrong_password_answer_alike() {
    let creds = UserSignIn { username_or_email: "nobody".into(), password: "pw".into() };
    let unknown = check_sign_in(None, &creds).unwrap_err();
    let created = new_user(UserCreate { username: "x".into(), password: "other".into(), email: "x@x".into(), groups: None }).unwrap();
    let stored = User { id: Some(id("507f1f77bcf86cd799439011")), ..created };
    let wrong = check_sign_in(Some(stored), &creds).unwrap_err();
    assert_eq!(unknown, wrong);
    assert_eq!(unknown, ApiError::BadRequest("Wrong email or password".to_string()));
}
