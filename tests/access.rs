use gate::auth::{
    candidate_credential, config_from_settings, constant_time_compare, credential_digest,
    env_file_content, extract_token_from_header, access_token_is_well_formed, login_outcome,
    secure_cookies_from, token_from_bytes, validate_token, GateConfig, HeaderField, LoginForm,
    LoginOutcome, SESSION_MAX_AGE_SECS,
};
use gate::dispatch::{access_decision, refusal_outcome, requirement_of, status_code, step, Access, Event, Outcome, Phase, Route, Surface};
use gate::policy::{
    build_rank_query, build_registered_query, credential_is_registered, effective_rank,
    grants_from_document, rank_from_response, rank_query_for, PolicyGrant, RankTarget, EDIT_RANK,
    VIEW_RANK,
};
use gate::transfer::build_size_update;

const SECRET123_DIGEST: &str = "fcf730b6d95236ecd3c9fc2d92d7b6b2bb061514961aec041d6c7a7192f592e4";
const ID: &str = "0b6c1d2e-3f40-4a5b-8c6d-7e8f90a1b2c3";

fn header(name: &str, value: &str) -> HeaderField {
    HeaderField { name: name.to_string(), value: value.to_string() }
}

fn config(token: &str) -> GateConfig {
    GateConfig {
        access_token: token.to_string(),
        oxigraph_url: "http://localhost:7878".to_string(),
        secure_cookies: true,
        files_dir: "../files".to_string(),
    }
}

fn rank_doc(rows: &[(&str, &str, Option<&str>)]) -> String {
    let mut b = Vec::new();
    for (level, kind, digest) in rows {
        let mut s = format!(
            "{{\"level\":{{\"type\":\"literal\",\"value\":\"{}\"}},\"kind\":{{\"type\":\"uri\",\"value\":\"{}\"}}",
            level, kind
        );
        if let Some(d) = digest {
            s.push_str(&format!(",\"digest\":{{\"type\":\"literal\",\"value\":\"{}\"}}", d));
        }
        s.push('}');
        b.push(s);
    }
    format!(
        "{{\"head\":{{\"vars\":[\"level\",\"kind\",\"digest\"]}},\"results\":{{\"bindings\":[{}]}}}}",
        b.join(",")
    )
}

const PUBLIC: &str = "http://liqk.org/schema#Public";
const TOKEN: &str = "http://liqk.org/schema#Token";

#[test]
fn compare_equal_and_unequal() {
    assert!(constant_time_compare("abc", "abc"));
    assert!(!constant_time_compare("abc", "abd"));
    assert!(!constant_time_compare("abc", "abcd"));
    assert!(!constant_time_compare("", "a"));
    assert!(constant_time_compare("", ""));
}

#[test]
fn token_from_access_header_first() {
    let h = vec![header("authorization", "Bearer b-token"), header("x-access-token", "a-token")];
    assert_eq!(extract_token_from_header(&h), Some("a-token".to_string()));
}

#[test]
fn token_from_bearer_header() {
    let h = vec![header("authorization", "Bearer b-token")];
    assert_eq!(extract_token_from_header(&h), Some("b-token".to_string()));
    let h = vec![header("authorization", "Basic xyz")];
    assert_eq!(extract_token_from_header(&h), None);
    let h = vec![header("X-Access-Token", "mixed-case")];
    assert_eq!(extract_token_from_header(&h), Some("mixed-case".to_string()));
}

#[test]
fn credential_falls_back_to_cookie() {
    assert_eq!(candidate_credential(&[], Some("c".to_string())), Some("c".to_string()));
    let h = vec![header("x-access-token", "h")];
    assert_eq!(candidate_credential(&h, Some("c".to_string())), Some("h".to_string()));
    assert_eq!(candidate_credential(&[], None), None);
}

#[test]
fn validate_header_or_cookie() {
    let c = config("0123456789abcdef0123456789abcdef");
    let good = vec![header("x-access-token", "0123456789abcdef0123456789abcdef")];
    let bad = vec![header("x-access-token", "nope")];
    assert!(validate_token(&c, &good, &None));
    assert!(!validate_token(&c, &bad, &None));
    // The header is the one presented credential: a matching cookie does not rescue it.
    assert!(!validate_token(&c, &bad, &Some("0123456789abcdef0123456789abcdef".to_string())));
    assert!(validate_token(&c, &[], &Some("0123456789abcdef0123456789abcdef".to_string())));
    assert!(!validate_token(&c, &[], &Some("other".to_string())));
    assert!(!validate_token(&c, &[], &None));
}

#[test]
fn digest_of_credential() {
    assert_eq!(credential_digest("secret123"), SECRET123_DIGEST);
    assert_ne!(credential_digest("other"), SECRET123_DIGEST);
}

#[test]
fn fresh_token_is_hex() {
    let t = token_from_bytes(&[0x00, 0x01, 0x7f, 0x80, 0xff, 0x10, 0x20, 0x30, 0x40, 0x50, 0x60, 0x70, 0x80, 0x90, 0xa0, 0xab]);
    assert_eq!(t, "00017f80ff102030405060708090a0ab");
    assert!(access_token_is_well_formed(&t));
}

#[test]
fn token_shape() {
    assert!(access_token_is_well_formed("0123456789ABCDEF0123456789abcdef"));
    assert!(!access_token_is_well_formed("0123456789abcdef0123456789abcde"));
    assert!(!access_token_is_well_formed("0123456789abcdef0123456789abcdeg"));
}

#[test]
fn secure_cookie_setting() {
    assert!(secure_cookies_from(&None));
    assert!(!secure_cookies_from(&Some("FALSE".to_string())));
    assert!(!secure_cookies_from(&Some("false".to_string())));
    assert!(secure_cookies_from(&Some("no".to_string())));
}

#[test]
fn env_file_text() {
    assert_eq!(env_file_content("tok", "http://u"), "ACCESS_TOKEN=tok\nOXIGRAPH_URL=http://u\n");
}

#[test]
fn settings_to_config() {
    let (c, generated) = config_from_settings(None, None, None, None, "f".repeat(32));
    assert!(generated);
    assert_eq!(c.access_token, "f".repeat(32));
    assert_eq!(c.oxigraph_url, "http://localhost:7878");
    assert_eq!(c.files_dir, "../files");
    assert!(c.secure_cookies);
    let (c, generated) = config_from_settings(
        Some("a".repeat(32)),
        Some("http://store".to_string()),
        Some("false".to_string()),
        Some("/data".to_string()),
        "f".repeat(32),
    );
    assert!(!generated);
    assert_eq!(c.access_token, "a".repeat(32));
    assert_eq!(c.oxigraph_url, "http://store");
    assert!(!c.secure_cookies);
    let (c, generated) = config_from_settings(Some("short".to_string()), None, None, None, "f".repeat(32));
    assert!(generated);
    assert_eq!(c.access_token, "f".repeat(32));
}

#[test]
fn login_sets_session_cookie() {
    let c = config("0123456789abcdef0123456789abcdef");
    match login_outcome(&c, LoginForm { token: "0123456789abcdef0123456789abcdef".to_string() }, false) {
        LoginOutcome::Accepted(cookie) => {
            assert_eq!(cookie.name, "oxigraph_gate_token");
            assert_eq!(cookie.value, "0123456789abcdef0123456789abcdef");
            assert_eq!(cookie.path, "/");
            assert!(cookie.http_only && cookie.same_site_strict && cookie.secure);
            assert_eq!(cookie.max_age_secs, SESSION_MAX_AGE_SECS);
            assert_eq!(cookie.max_age_secs, 7_776_000);
        }
        LoginOutcome::Rejected => panic!("expected acceptance"),
    }
    assert!(matches!(login_outcome(&c, LoginForm { token: "wrong".to_string() }, false), LoginOutcome::Rejected));
    assert!(matches!(login_outcome(&c, LoginForm { token: "registered".to_string() }, true), LoginOutcome::Accepted(_)));
}

#[test]
fn rank_is_max_of_admitted_grants() {
    let grants = vec![
        PolicyGrant { level: 1, public: true, grantee_digest: None },
        PolicyGrant { level: 3, public: false, grantee_digest: Some("d1".to_string()) },
        PolicyGrant { level: 5, public: false, grantee_digest: Some("d2".to_string()) },
    ];
    assert_eq!(effective_rank(&grants, &None), 1);
    assert_eq!(effective_rank(&grants, &Some("d1".to_string())), 3);
    assert_eq!(effective_rank(&grants, &Some("d2".to_string())), 5);
    assert_eq!(effective_rank(&grants, &Some("d3".to_string())), 1);
    assert_eq!(effective_rank(&[], &Some("d1".to_string())), 0);
}

#[test]
fn grant_to_one_credential_gives_other_nothing() {
    let doc = rank_doc(&[("3", TOKEN, Some(SECRET123_DIGEST))]);
    let other = Some(credential_digest("other"));
    assert_eq!(rank_from_response(&Some(doc.clone()), &other), 0);
    assert_eq!(rank_from_response(&Some(doc.clone()), &None), 0);
    assert_eq!(rank_from_response(&Some(doc), &Some(credential_digest("secret123"))), 3);
}

#[test]
fn public_grant_on_container_reaches_descendant() {
    // The store reports the public grant on the container for a query on its descendant.
    let doc = rank_doc(&[("2", PUBLIC, None), ("1", TOKEN, Some("x"))]);
    assert!(rank_from_response(&Some(doc.clone()), &None) >= 2);
    assert!(rank_from_response(&Some(doc), &Some("x".to_string())) >= 2);
}

#[test]
fn rank_fails_closed() {
    assert_eq!(rank_from_response(&None, &Some(SECRET123_DIGEST.to_string())), 0);
    assert_eq!(rank_from_response(&Some("not json".to_string()), &None), 0);
    let doc = rank_doc(&[("lots", PUBLIC, None), ("99999999999", PUBLIC, None)]);
    assert_eq!(rank_from_response(&Some(doc), &None), 0);
}

#[test]
fn grants_read_from_rows() {
    let doc = rank_doc(&[("1", PUBLIC, None), ("3", TOKEN, Some("abc"))]);
    let g = grants_from_document(&doc);
    assert_eq!(g.len(), 2);
    assert_eq!(g[0].level, 1);
    assert!(g[0].public);
    assert_eq!(g[0].grantee_digest, None);
    assert_eq!(g[1].level, 3);
    assert!(!g[1].public);
    assert_eq!(g[1].grantee_digest, Some("abc".to_string()));
}

#[test]
fn secret_header_elevates_rank_on_nested_file() {
    // A view grant to the credential `secret123` on the root; no public grant on the file.
    let doc = rank_doc(&[("1", TOKEN, Some(SECRET123_DIGEST))]);
    let labels = vec!["reports".to_string(), "q1.pdf".to_string()];
    let req = requirement_of(Route::Files(labels.clone()));
    assert_eq!(req.required, VIEW_RANK);
    // Without a credential.
    let (q, digest) = rank_query_for(&req.target, &None);
    assert!(q.is_some());
    assert_eq!(digest, None);
    let rank = rank_from_response(&Some(doc.clone()), &digest);
    assert_eq!(rank, 0);
    let refused = access_decision(rank, req.required, req.surface);
    assert_eq!(refused, Access::Forbidden);
    assert_eq!(status_code(refusal_outcome(refused).unwrap()), 403);
    // With the header.
    let headers = vec![header("x-access-token", "secret123")];
    let cred = candidate_credential(&headers, None);
    let (q, digest) = rank_query_for(&req.target, &cred);
    assert_eq!(digest, Some(SECRET123_DIGEST.to_string()));
    assert!(q.unwrap().contains(SECRET123_DIGEST));
    let rank = rank_from_response(&Some(doc), &digest);
    assert_eq!(rank, 1);
    assert_eq!(access_decision(rank, req.required, req.surface), Access::Proceed);
    assert_eq!(gate::transfer::media_type_for("q1.pdf"), "application/pdf");
}

#[test]
fn replace_needs_edit_rank() {
    let req = requirement_of(Route::ReplaceResource(ID.to_string()));
    assert_eq!(req.required, EDIT_RANK);
    assert_eq!(req.surface, Surface::Api);
    let view_only = rank_from_response(&Some(rank_doc(&[("1", TOKEN, Some("d"))])), &Some("d".to_string()));
    let decision = access_decision(view_only, req.required, req.surface);
    assert_eq!(decision, Access::Forbidden);
    assert_eq!(status_code(refusal_outcome(decision).unwrap()), 403);
    let editor = rank_from_response(&Some(rank_doc(&[("3", TOKEN, Some("d"))])), &Some("d".to_string()));
    assert_eq!(access_decision(editor, req.required, req.surface), Access::Proceed);
    assert_eq!(refusal_outcome(Access::Proceed), None);
    let update = build_size_update(ID, 1234).unwrap();
    assert_eq!(
        update,
        format!(
            "PREFIX posix: <http://www.w3.org/ns/posix/stat#>\n\nWITH <http://liqk.org/graph/filesystem>\nDELETE {{ <urn:uuid:{id}> posix:size ?size . }}\nINSERT {{ <urn:uuid:{id}> posix:size 1234 . }}\nWHERE {{ OPTIONAL {{ <urn:uuid:{id}> posix:size ?size . }} }}",
            id = ID
        )
    );
    assert_eq!(build_size_update("not-an-id", 1), None);
}

#[test]
fn route_requirements() {
    let r = requirement_of(Route::PassThrough("/update".to_string()));
    assert_eq!(r.required, EDIT_RANK);
    assert!(matches!(r.target, RankTarget::Action(ref a) if a == "http://liqk.org/graph"));
    let r = requirement_of(Route::PassThrough("/query".to_string()));
    assert_eq!(r.required, VIEW_RANK);
    let r = requirement_of(Route::CreateResource);
    assert_eq!(r.required, EDIT_RANK);
    assert!(matches!(r.target, RankTarget::Action(ref a) if a == "http://liqk.org/action/upload"));
    let r = requirement_of(Route::Upload);
    assert_eq!(r.surface, Surface::Browse);
    let r = requirement_of(Route::UploadPage);
    assert_eq!(r.required, EDIT_RANK);
    let r = requirement_of(Route::ReadResource(ID.to_string()));
    assert_eq!(r.required, VIEW_RANK);
    assert_eq!(r.surface, Surface::Api);
}

#[test]
fn statuses() {
    assert_eq!(status_code(Outcome::Done), 200);
    assert_eq!(status_code(Outcome::RedirectToLogin), 303);
    assert_eq!(status_code(Outcome::BadRequest), 400);
    assert_eq!(status_code(Outcome::Forbidden), 403);
    assert_eq!(status_code(Outcome::NotFound), 404);
    assert_eq!(status_code(Outcome::PayloadTooLarge), 413);
    assert_eq!(status_code(Outcome::InternalError), 500);
    assert_eq!(status_code(Outcome::UpstreamUnreachable), 502);
}

#[test]
fn rank_query_texts() {
    let q = build_rank_query(&RankTarget::Resource(ID.to_string()), &Some("ab\"c".to_string())).unwrap();
    let expected = format!(
        "PREFIX posix: <http://www.w3.org/ns/posix/stat#>\nPREFIX liqk: <http://liqk.org/schema#>\n\nSELECT ?level ?kind ?digest WHERE {{\n    GRAPH <http://liqk.org/graph/policy> {{\n        ?policy liqk:target ?target ;\n                liqk:accessLevel ?level ;\n                liqk:grantKind ?kind .\n        OPTIONAL {{ ?policy liqk:grantee ?grantee . ?grantee liqk:tokenDigest ?digest . }}\n    }}\n    GRAPH <http://liqk.org/graph/filesystem> {{ ?target posix:includes* <urn:uuid:{}> . }}\n    FILTER(?kind = <http://liqk.org/schema#Public> || ?digest = \"ab\\\"c\")\n}}",
        ID
    );
    assert_eq!(q, expected);
    let q = build_rank_query(&RankTarget::Action("http://liqk.org/graph".to_string()), &None).unwrap();
    assert!(q.ends_with("    FILTER(?target = <http://liqk.org/graph>)\n    FILTER(?kind = <http://liqk.org/schema#Public>)\n}"));
    let q = build_rank_query(&RankTarget::Path(vec!["reports".to_string()]), &None).unwrap();
    assert!(q.contains("    ?root posix:includes ?dir0 .\n    ?dir0 rdfs:label \"reports\" .\n        ?target posix:includes* ?dir0 .\n"));
    assert_eq!(build_rank_query(&RankTarget::Resource("x> } DROP ALL {".to_string()), &None), None);
    assert_eq!(build_rank_query(&RankTarget::Action("bad iri>".to_string()), &None), None);
}

#[test]
fn registration_query_and_answer() {
    assert_eq!(
        build_registered_query("abc"),
        "PREFIX liqk: <http://liqk.org/schema#>\n\nASK {\n    GRAPH <http://liqk.org/graph/policy> { ?credential a liqk:Credential ; liqk:tokenDigest \"abc\" . }\n}"
    );
    assert!(credential_is_registered(&Some("{\"head\":{},\"boolean\":true}".to_string())));
    assert!(!credential_is_registered(&Some("{\"head\":{},\"boolean\":false}".to_string())));
    assert!(!credential_is_registered(&Some("oops".to_string())));
    assert!(!credential_is_registered(&None));
}

#[test]
fn request_phases() {

    let p = step(Phase::Unauthenticated, Event::RankResolved { rank: 1, required: 3, surface: Surface::Api });
    assert_eq!(p, Phase::RankChecked { rank: 1, required: 3, surface: Surface::Api });
    assert_eq!(step(p, Event::Compared), Phase::Responded(Outcome::Forbidden));
    let p = step(Phase::Unauthenticated, Event::RankResolved { rank: 0, required: 1, surface: Surface::Browse });
    assert_eq!(step(p, Event::Compared), Phase::Responded(Outcome::RedirectToLogin));
    let p = step(Phase::Unauthenticated, Event::RankResolved { rank: 3, required: 3, surface: Surface::Api });
    let p = step(p, Event::Compared);
    assert_eq!(p, Phase::Dispatched);
    assert_eq!(step(p, Event::Finished(Outcome::NotFound)), Phase::Responded(Outcome::NotFound));
    assert_eq!(step(Phase::Responded(Outcome::Done), Event::Compared), Phase::Responded(Outcome::Done));
}
