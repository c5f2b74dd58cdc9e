use gate::auth::HeaderField;
use gate::dispatch::{blob_read_outcome, file_route, lookup_outcome, split_path, FileRoute, Outcome};
use gate::json::first_binding;
use gate::listing::{list_children, listing_from_response, sort_entries, sort_keyed, DirEntry, KeyedEntry};
use gate::page::{render_directory_html, upload_success_html, LISTING_HEAD, LISTING_LIST, LISTING_STYLE, LISTING_TAIL};
use gate::proxy::{forward_headers, required_rank_for_path, should_forward_header, upstream_method, upstream_request, upstream_url, UpstreamMethod};
use gate::query::{
    build_children_query, build_container_ask_query, build_file_lookup_query, build_id_lookup_query,
    build_root_child_container_query, check_resource_id, check_safe_iri, escape_literal,
};
use gate::transfer::{
    build_sparql_insert, created_listing_json, extract_extension, media_type_for, plan_upload_item,
    plan_upload_item_with_id, sanitize_filename, upload_summary, ChunkVerdict, UploadItem, UploadMeter,
    MAX_UPLOAD_SIZE,
};

const ID: &str = "0b6c1d2e-3f40-4a5b-8c6d-7e8f90a1b2c3";

fn header(name: &str, value: &str) -> HeaderField {
    HeaderField { name: name.to_string(), value: value.to_string() }
}

fn children_doc(rows: &[(&str, bool)]) -> String {
    let b: Vec<String> = rows
        .iter()
        .map(|(l, d)| {
            format!(
                "{{\"label\":{{\"type\":\"literal\",\"value\":\"{}\"}},\"isDir\":{{\"type\":\"literal\",\"datatype\":\"http://www.w3.org/2001/XMLSchema#boolean\",\"value\":\"{}\"}}}}",
                l, d
            )
        })
        .collect();
    format!("{{\"head\":{{\"vars\":[\"label\",\"isDir\"]}},\"results\":{{\"bindings\":[{}]}}}}", b.join(","))
}

fn labels(es: &[DirEntry]) -> Vec<(String, bool)> {
    es.iter().map(|e| (e.label.clone(), e.is_dir)).collect()
}

#[test]
fn forward_filter() {
    assert!(!should_forward_header("cookie"));
    assert!(!should_forward_header("Cookie"));
    assert!(!should_forward_header("x-access-token"));
    assert!(!should_forward_header("Authorization"));
    assert!(!should_forward_header("host"));
    assert!(!should_forward_header("Transfer-Encoding"));
    assert!(should_forward_header("content-type"));
    assert!(should_forward_header("accept"));
    assert!(should_forward_header("hostname"));
    // U+212A KELVIN SIGN lower-cases to an ASCII `k`.
    assert!(!should_forward_header("x-access-to\u{212A}en"));
    assert!(!should_forward_header("COOKIE"));
}

#[test]
fn cookie_never_goes_upstream() {
    let h = vec![
        header("cookie", "session=abc"),
        header("content-type", "application/sparql-query"),
        header("authorization", "Bearer t"),
        header("accept", "application/json"),
    ];
    let req = upstream_request("http://store:7878", "POST", "/query?x=1", &h, 10);
    assert_eq!(req.url, "http://store:7878/query?x=1");
    assert_eq!(req.method, UpstreamMethod::Post);
    assert!(req.with_body);
    let names: Vec<&str> = req.headers.iter().map(|h| h.name.as_str()).collect();
    assert_eq!(names, vec!["content-type", "accept"]);
    assert!(req.headers.iter().all(|h| !h.value.contains("session=")));
    let kept = forward_headers(&h);
    assert_eq!(kept.len(), 2);
    assert_eq!(kept[0].value, "application/sparql-query");
}

#[test]
fn methods_and_urls() {
    assert_eq!(upstream_method("GET"), UpstreamMethod::Get);
    assert_eq!(upstream_method("PUT"), UpstreamMethod::Put);
    assert_eq!(upstream_method("DELETE"), UpstreamMethod::Delete);
    assert_eq!(upstream_method("HEAD"), UpstreamMethod::Head);
    assert_eq!(upstream_method("OPTIONS"), UpstreamMethod::Options);
    assert_eq!(upstream_method("PATCH"), UpstreamMethod::Patch);
    assert_eq!(upstream_method("TRACE"), UpstreamMethod::Get);
    assert_eq!(upstream_url("http://a", "/b?c"), "http://a/b?c");
    assert!(!upstream_request("http://a", "GET", "/", &[], 0).with_body);
}

#[test]
fn rank_for_paths() {
    assert_eq!(required_rank_for_path("/update"), 3);
    assert_eq!(required_rank_for_path("/UPDATE/more"), 3);
    assert_eq!(required_rank_for_path("/query"), 1);
    assert_eq!(required_rank_for_path("/upd"), 1);
    assert_eq!(required_rank_for_path(""), 1);
}

#[test]
fn literal_escaping() {
    assert_eq!(escape_literal("a\"b\\c\nd\re\tf"), "a\\\"b\\\\c\\nd\\re\\tf");
    assert_eq!(escape_literal(""), "");
}

#[test]
fn file_lookup_text() {
    let q = build_file_lookup_query(&["reports".to_string()], "q1.pdf");
    assert_eq!(
        q,
        "PREFIX posix: <http://www.w3.org/ns/posix/stat#>\nPREFIX rdfs: <http://www.w3.org/2000/01/rdf-schema#>\nPREFIX liqk: <http://liqk.org/schema#>\n\nSELECT ?storedAs FROM <http://liqk.org/graph/filesystem> WHERE {\n    ?root a posix:Directory ;\n          rdfs:label \"/\" .\n    ?root posix:includes ?dir0 .\n    ?dir0 rdfs:label \"reports\" .\n    ?dir0 posix:includes ?file .\n    ?file rdfs:label \"q1.pdf\" .\n    ?file liqk:storedAs ?storedAs .\n}"
    );
    let q = build_file_lookup_query(&[], "say \"hi\".txt");
    assert!(q.contains("    ?root posix:includes ?file .\n    ?file rdfs:label \"say \\\"hi\\\".txt\" .\n"));
}

#[test]
fn container_queries() {
    let q = build_container_ask_query(&["a".to_string(), "b".to_string()]);
    assert_eq!(
        q,
        "PREFIX posix: <http://www.w3.org/ns/posix/stat#>\nPREFIX rdfs: <http://www.w3.org/2000/01/rdf-schema#>\n\nASK FROM <http://liqk.org/graph/filesystem> WHERE {\n    ?root a posix:Directory ;\n          rdfs:label \"/\" .\n    ?root posix:includes ?dir0 .\n    ?dir0 rdfs:label \"a\" .\n    ?dir0 a posix:Directory .\n    ?dir0 posix:includes ?dir1 .\n    ?dir1 rdfs:label \"b\" .\n    ?dir1 a posix:Directory .\n}"
    );
    let q = build_children_query(&[]);
    assert_eq!(
        q,
        "PREFIX posix: <http://www.w3.org/ns/posix/stat#>\nPREFIX rdfs: <http://www.w3.org/2000/01/rdf-schema#>\n\nSELECT ?label ?isDir FROM <http://liqk.org/graph/filesystem> WHERE {\n    ?root a posix:Directory ;\n          rdfs:label \"/\" .\n    ?root posix:includes ?child .\n    ?child rdfs:label ?label .\n    BIND(EXISTS { ?child a posix:Directory } AS ?isDir)\n}"
    );
    let q = build_root_child_container_query("upload");
    assert!(q.ends_with("    ?root posix:includes ?dir .\n    ?dir a posix:Directory .\n    ?dir rdfs:label \"upload\" .\n}"));
    assert!(q.starts_with("PREFIX posix: <http://www.w3.org/ns/posix/stat#>\nPREFIX rdfs: <http://www.w3.org/2000/01/rdf-schema#>\n\nSELECT ?dir FROM <http://liqk.org/graph/filesystem> WHERE {\n"));
}

#[test]
fn id_lookup_text() {
    assert_eq!(
        build_id_lookup_query(ID).unwrap(),
        format!("PREFIX liqk: <http://liqk.org/schema#>\n\nSELECT ?storedAs FROM <http://liqk.org/graph/filesystem> WHERE {{\n    <urn:uuid:{}> liqk:storedAs ?storedAs .\n}}", ID)
    );
    assert_eq!(build_id_lookup_query("abc"), None);
    assert!(check_resource_id(ID));
    assert!(!check_resource_id("0b6c1d2e-3f40-4a5b-8c6d-7e8f90a1b2cz"));
    assert!(check_safe_iri("urn:uuid:x"));
    assert!(!check_safe_iri("a b"));
    assert!(!check_safe_iri(""));
}

#[test]
fn first_value_of_lookup() {
    let doc = "{\"head\":{\"vars\":[\"storedAs\"]},\"results\":{\"bindings\":[{\"storedAs\":{\"type\":\"literal\",\"value\":\"x.pdf\"}}]}}";
    assert_eq!(first_binding(&Some(doc.to_string()), "storedAs"), Some(Some("x.pdf".to_string())));
    let empty = "{\"head\":{\"vars\":[\"storedAs\"]},\"results\":{\"bindings\":[]}}";
    assert_eq!(first_binding(&Some(empty.to_string()), "storedAs"), Some(None));
    assert_eq!(first_binding(&Some("<html>".to_string()), "storedAs"), None);
    assert_eq!(first_binding(&None, "storedAs"), None);
    assert_eq!(lookup_outcome(&None), Outcome::InternalError);
    assert_eq!(lookup_outcome(&Some(None)), Outcome::NotFound);
    assert_eq!(lookup_outcome(&Some(Some("x".to_string()))), Outcome::Done);
    assert_eq!(blob_read_outcome(false), Outcome::InternalError);
    assert_eq!(blob_read_outcome(true), Outcome::Done);
}

#[test]
fn listing_order() {
    let doc = children_doc(&[("b.txt", false), ("alpha", true), ("A.txt", false), ("Alpha", true), ("zeta", true)]);
    let es = list_children(&doc);
    assert_eq!(
        labels(&es),
        vec![
            ("Alpha".to_string(), true),
            ("alpha".to_string(), true),
            ("zeta".to_string(), true),
            ("A.txt".to_string(), false),
            ("b.txt".to_string(), false),
        ]
    );
}

#[test]
fn listing_twice_is_the_same() {
    let rows = [("b.txt", false), ("alpha", true), ("A.txt", false), ("Alpha", true)];
    let doc = children_doc(&rows);
    let first = labels(&list_children(&doc));
    let second = labels(&list_children(&doc));
    assert_eq!(first, second);
    let mut reversed = rows.to_vec();
    reversed.reverse();
    let third = labels(&list_children(&children_doc(&reversed)));
    assert_eq!(first, third);
    let again = labels(&sort_entries(&list_children(&doc)));
    assert_eq!(first, again);
}

#[test]
fn listing_edge_cases() {
    assert!(list_children(&children_doc(&[])).is_empty());
    assert!(listing_from_response(&None).is_none());
    assert!(listing_from_response(&Some("nope".to_string())).is_none());
    assert_eq!(listing_from_response(&Some(children_doc(&[("x", false)]))).unwrap().len(), 1);
}

#[test]
fn listing_page() {
    let page = render_directory_html("", &[]);
    assert_eq!(
        page,
        format!("{}/{}/{}<li><a href=\"/file/\">.</a></li><li><a href=\"/file/\">..</a></li>{}", LISTING_HEAD, LISTING_STYLE, LISTING_LIST, LISTING_TAIL)
    );
    let es = vec![DirEntry { label: "x".to_string(), is_dir: true }, DirEntry { label: "y".to_string(), is_dir: false }];
    let page = render_directory_html("a/b", &es);
    assert!(page.contains("<title>Index of a/b</title>"));
    assert!(page.contains(
        "<li><a href=\"/file/a/b\">.</a></li><li><a href=\"/file/a\">..</a></li><li>📁 <a href=\"/file/a/b/x\">x/</a></li><li>📄 <a href=\"/file/a/b/y\">y</a></li>"
    ));
    let page = render_directory_html("/a/", &[]);
    assert!(page.contains("<li><a href=\"/file/a\">.</a></li><li><a href=\"/file/\">..</a></li>"));
}

#[test]
fn upload_page_message() {
    let html = upload_success_html("Uploaded 1 file(s): a.txt");
    assert!(html.starts_with("<!DOCTYPE html>\n<html lang=\"en\">"));
    assert!(html.contains("<p>Uploaded 1 file(s): a.txt</p>\n        <a href=\"/upload\">Upload More</a>"));
    assert!(html.ends_with("</html>"));
}

#[test]
fn paths_split() {
    assert_eq!(split_path("/reports//q1.pdf/"), vec!["reports".to_string(), "q1.pdf".to_string()]);
    assert!(split_path("").is_empty());
    assert!(split_path("///").is_empty());
    match file_route(&split_path("reports/q1.pdf"), false) {
        FileRoute::LookupFile { dirs, name } => {
            assert_eq!(dirs, vec!["reports".to_string()]);
            assert_eq!(name, "q1.pdf");
        }
        _ => panic!("expected a file lookup"),
    }
    assert!(matches!(file_route(&[], false), FileRoute::ListEmptyRoot));
    assert!(matches!(file_route(&split_path("reports"), true), FileRoute::ListContainer));
}

#[test]
fn names_and_extensions() {
    assert_eq!(sanitize_filename("dir/sub/report.pdf"), Some("report.pdf".to_string()));
    assert_eq!(sanitize_filename("C:\\Users\\me\\notes.txt"), Some("notes.txt".to_string()));
    assert_eq!(sanitize_filename(".hidden"), None);
    assert_eq!(sanitize_filename("dir/"), None);
    assert_eq!(sanitize_filename(""), None);
    assert_eq!(sanitize_filename("../.."), None);
    assert_eq!(extract_extension("archive.tar.gz"), Some("gz".to_string()));
    assert_eq!(extract_extension("report.pdf"), Some("pdf".to_string()));
    assert_eq!(extract_extension("README"), None);
    assert_eq!(extract_extension("trailing."), Some(String::new()));
    assert_eq!(extract_extension(".."), Some(String::new()));
}

#[test]
fn upload_items() {
    let item = plan_upload_item_with_id("x/archive.tar.gz", ID.to_string()).unwrap();
    assert_eq!(item.filename, "archive.tar.gz");
    assert_eq!(item.extension, "gz");
    assert_eq!(item.stored_name, format!("{}.gz", ID));
    let item = plan_upload_item_with_id("README", ID.to_string()).unwrap();
    assert_eq!(item.stored_name, format!("{}.bin", ID));
    assert!(plan_upload_item_with_id(".env", ID.to_string()).is_none());
    let item = plan_upload_item_with_id("notes.", ID.to_string()).unwrap();
    assert_eq!(item.extension, "bin");
    assert_eq!(item.stored_name, format!("{}.bin", ID));
    let fresh = plan_upload_item("photo.png").unwrap();
    assert!(check_resource_id(&fresh.id));
    assert_eq!(fresh.id, fresh.id.to_lowercase());
    assert_eq!(fresh.stored_name, format!("{}.png", fresh.id));
    let other = plan_upload_item("photo.png").unwrap();
    assert_ne!(fresh.id, other.id);
}

#[test]
fn ceiling_exactly_reached_succeeds() {
    let mut m = UploadMeter::new();
    assert_eq!(m.on_chunk(MAX_UPLOAD_SIZE - 10), ChunkVerdict::Write);
    assert_eq!(m.on_chunk(10), ChunkVerdict::Write);
    assert_eq!(m.total, 4 * 1024 * 1024 * 1024);
    assert_eq!(m.on_chunk(0), ChunkVerdict::Write);
}

#[test]
fn ceiling_passed_by_one_byte_aborts() {
    let mut m = UploadMeter::new();
    assert_eq!(m.on_chunk(MAX_UPLOAD_SIZE - 10), ChunkVerdict::Write);
    m.start_file();
    assert_eq!(m.file, 0);
    assert_eq!(m.on_chunk(11), ChunkVerdict::Abort);
    assert_eq!(m.total, MAX_UPLOAD_SIZE - 10);
    assert_eq!(m.file, 0);
    let mut m = UploadMeter::new();
    assert_eq!(m.on_chunk(MAX_UPLOAD_SIZE + 1), ChunkVerdict::Abort);
    assert_eq!(m.total, 0);
}

#[test]
fn upload_record_text() {
    let item = UploadItem {
        filename: "a\"b.txt".to_string(),
        id: ID.to_string(),
        extension: "txt".to_string(),
        stored_name: format!("{}.txt", ID),
    };
    let q = build_sparql_insert(&item, 5, "text/plain", "2024-01-01T00:00:00+00:00", "urn:uuid:dir").unwrap();
    assert_eq!(
        q,
        format!(
            "PREFIX posix: <http://www.w3.org/ns/posix/stat#>\nPREFIX rdf: <http://www.w3.org/1999/02/22-rdf-syntax-ns#>\nPREFIX rdfs: <http://www.w3.org/2000/01/rdf-schema#>\nPREFIX xsd: <http://www.w3.org/2001/XMLSchema#>\nPREFIX dc: <http://purl.org/dc/terms/>\nPREFIX liqk: <http://liqk.org/schema#>\n\nINSERT DATA {{\n    GRAPH <http://liqk.org/graph/filesystem> {{\n        <urn:uuid:{id}> rdf:type posix:File ;\n            rdfs:label \"a\\\"b.txt\" ;\n            posix:size 5 ;\n            dc:format \"text/plain\" ;\n            dc:created \"2024-01-01T00:00:00+00:00\"^^xsd:dateTime ;\n            liqk:storedAs \"{id}.txt\" .\n        <urn:uuid:dir> posix:includes <urn:uuid:{id}> .\n    }}\n}}",
            id = ID
        )
    );
    assert!(build_sparql_insert(&item, 5, "text/plain", "t", "bad dir").is_none());
    assert!(build_sparql_insert(&item, 1234567890123, "m", "t", "urn:x").unwrap().contains("posix:size 1234567890123 ;"));
}

#[test]
fn media_types() {
    assert_eq!(media_type_for("q1.pdf"), "application/pdf");
    assert_eq!(media_type_for("x.png"), "image/png");
    assert_eq!(media_type_for("noext"), "application/octet-stream");
}

#[test]
fn summaries() {
    assert_eq!(upload_summary(&[]), None);
    assert_eq!(upload_summary(&["a.txt".to_string()]), Some("Uploaded 1 file(s): a.txt".to_string()));
    assert_eq!(
        upload_summary(&["a.txt".to_string(), "b.txt".to_string()]),
        Some("Uploaded 2 file(s): a.txt, b.txt".to_string())
    );
}

#[test]
fn creation_answer() {
    let items = vec![
        UploadItem { filename: "a.txt".to_string(), id: ID.to_string(), extension: "txt".to_string(), stored_name: String::new() },
        UploadItem { filename: "q\"\n.txt".to_string(), id: "i2".to_string(), extension: "txt".to_string(), stored_name: String::new() },
    ];
    assert_eq!(
        created_listing_json(&items),
        format!("[{{\"filename\":\"a.txt\",\"uuid\":\"{}\"}},{{\"filename\":\"q\\\"\\n.txt\",\"uuid\":\"i2\"}}]", ID)
    );
    assert_eq!(created_listing_json(&[]), "[]");
    let v: serde_json::Value = serde_json::from_str(&created_listing_json(&items)).unwrap();
    assert_eq!(v[1]["filename"], "q\"\n.txt");
}

#[test]
fn listing_ignores_case() {
    let doc = children_doc(&[("B.txt", false), ("a.txt", false), ("Docs", true), ("archive", true)]);
    assert_eq!(
        labels(&list_children(&doc)),
        vec![
            ("archive".to_string(), true),
            ("Docs".to_string(), true),
            ("a.txt".to_string(), false),
            ("B.txt".to_string(), false),
        ]
    );
}

#[test]
fn keyed_order() {
    let k = |label: &str, key: &str, is_dir: bool| KeyedEntry {
        entry: DirEntry { label: label.to_string(), is_dir },
        key: key.to_string(),
    };
    let sorted = sort_keyed(&[k("x", "b", false), k("y", "a", false), k("z", "c", true), k("w", "a", false)]);
    let order: Vec<&str> = sorted.iter().map(|e| e.entry.label.as_str()).collect();
    assert_eq!(order, vec!["z", "w", "y", "x"]);
}

#[test]
fn partial_success_note() {
    assert_eq!(gate::transfer::indexing_note(&[]), "");
    assert_eq!(
        gate::transfer::indexing_note(&["a.txt".to_string(), "b.txt".to_string()]),
        "; stored but not yet indexed: a.txt, b.txt"
    );
}

#[test]
fn stored_name_survives_the_serving_check() {
    let item = plan_upload_item("nested/dir/report.final.pdf").unwrap();
    assert_eq!(sanitize_filename(&item.stored_name), Some(item.stored_name.clone()));
    let mut meter = UploadMeter::new();
    for chunk in [3u64, 0, 7] {
        assert_eq!(meter.on_chunk(chunk), ChunkVerdict::Write);
    }
    let record = build_sparql_insert(&item, meter.file, &media_type_for(&item.filename), "t", "urn:x").unwrap();
    assert!(record.contains("posix:size 10 ;"));
    assert!(record.contains(&format!("liqk:storedAs \"{}\" .", item.stored_name)));
    let answer = format!(
        "{{\"head\":{{\"vars\":[\"storedAs\"]}},\"results\":{{\"bindings\":[{{\"storedAs\":{{\"type\":\"literal\",\"value\":\"{}\"}}}}]}}}}",
        item.stored_name
    );
    assert!(build_id_lookup_query(&item.id).is_some());
    assert_eq!(first_binding(&Some(answer), "storedAs"), Some(Some(item.stored_name.clone())));
}

#[test]
fn upload_report_marks_partial_success() {
    let mut r = gate::transfer::UploadReport::new();
    r.record("a.txt".to_string(), true);
    r.record("b.txt".to_string(), false);
    assert_eq!(r.stored, vec!["a.txt".to_string(), "b.txt".to_string()]);
    assert_eq!(r.unindexed, vec!["b.txt".to_string()]);
    assert_eq!(gate::transfer::indexing_note(&r.unindexed), "; stored but not yet indexed: b.txt");
}

#[test]
fn container_answer_or_failure() {
    use_ask(&Some("{\"head\":{},\"boolean\":true}".to_string()), Some(true));
    use_ask(&Some("{\"head\":{},\"boolean\":false}".to_string()), Some(false));
    use_ask(&Some("{\"head\":{}}".to_string()), Some(false));
    use_ask(&Some("<html>error</html>".to_string()), None);
    use_ask(&None, None);
}

fn use_ask(response: &Option<String>, expected: Option<bool>) {
    assert_eq!(gate::json::ask_from_response(response), expected);
}

#[test]
fn upload_message_with_note() {
    let mut r = gate::transfer::UploadReport::new();
    assert_eq!(gate::transfer::upload_message(&r), None);
    r.record("a.txt".to_string(), true);
    assert_eq!(gate::transfer::upload_message(&r), Some("Uploaded 1 file(s): a.txt".to_string()));
    r.record("b.txt".to_string(), false);
    assert_eq!(
        gate::transfer::upload_message(&r),
        Some("Uploaded 2 file(s): a.txt, b.txt; stored but not yet indexed: b.txt".to_string())
    );
}
