use doxie::datetime::{format_datetime, parse_datetime, DateTime};
use doxie::digits::parse_usize_str;
use doxie::discover::{discover_doxie, SsdpResponse};
use doxie::doxie::{
    delete_response_verdict, download_response_verdict, download_written, file_name_of,
    is_success_status, Doxie, DoxieError, HttpReply, ScanEntry,
};

const URN: &str = "schemas-getdoxie-com:device:Scanner:1";

fn client() -> Doxie {
    Doxie::from_base_url_string("http://192.168.1.100:8080").expect("base URL should parse")
}

#[test]
fn base_url_rejected_when_not_absolute() {
    let r = Doxie::from_base_url_string("not a url");
    assert_eq!(r.err(), Some(DoxieError::InvalidBaseUrl));
}

#[test]
fn list_url_is_scans_json_under_base() {
    let d = client();
    let url = d.list_scans_url().unwrap();
    assert_eq!(url, "http://192.168.1.100:8080/scans.json");
}

#[test]
fn listing_yields_one_entry_per_element_in_order() {
    let d = client();
    let body = "[{\"name\":\"/scan1.pdf\",\"size\":\"204800\",\"modified\":\"2019-03-01 10:15:00\"},\
                {\"name\":\"/scan2.pdf\",\"size\":\"1024\",\"modified\":\"2020-12-31 23:59:59\"}]";
    let entries = d.list_scans(body).unwrap();
    assert_eq!(entries.len(), 2);
    assert_eq!(entries[0].name, "/scan1.pdf");
    assert_eq!(entries[1].name, "/scan2.pdf");
}

#[test]
fn listing_scenario_parses_fields() {
    let d = client();
    let body = "[{\"name\":\"/scan1.pdf\",\"size\":\"204800\",\"modified\":\"2019-03-01 10:15:00\"}]";
    let entries = d.list_scans(body).unwrap();
    assert_eq!(entries.len(), 1);
    assert_eq!(entries[0].name, "/scan1.pdf");
    assert_eq!(entries[0].size, 204800);
    assert_eq!(
        entries[0].modified,
        DateTime { year: 2019, month: 3, day: 1, hour: 10, minute: 15, second: 0 }
    );
}

#[test]
fn size_as_string_and_as_number_parse_alike() {
    let d = client();
    let with_string = "[{\"name\":\"/a.pdf\",\"size\":\"12345\",\"modified\":\"2019-03-01 10:15:00\"}]";
    let with_number = "[{\"name\":\"/a.pdf\",\"size\":12345,\"modified\":\"2019-03-01 10:15:00\"}]";
    let a = d.list_scans(with_string).unwrap();
    let b = d.list_scans(with_number).unwrap();
    assert_eq!(a[0].size, 12345);
    assert_eq!(b[0].size, 12345);
}

#[test]
fn listing_rejects_non_array_top_level() {
    let d = client();
    assert_eq!(d.list_scans("{\"name\":\"x\"}").err(), Some(DoxieError::UnexpectedShape));
    assert_eq!(d.list_scans("not json at all").err(), Some(DoxieError::UnexpectedShape));
}

#[test]
fn listing_rejects_bad_size_and_bad_timestamp() {
    let d = client();
    let bad_size = "[{\"name\":\"/a.pdf\",\"size\":\"12x\",\"modified\":\"2019-03-01 10:15:00\"}]";
    assert_eq!(d.list_scans(bad_size).err(), Some(DoxieError::MalformedField));
    let bad_time = "[{\"name\":\"/a.pdf\",\"size\":\"1\",\"modified\":\"2019-13-01 10:15:00\"}]";
    assert_eq!(d.list_scans(bad_time).err(), Some(DoxieError::MalformedField));
}

#[test]
fn download_defaults_destination_to_final_segment() {
    let d = client();
    let req = d.download_scan_by_name("/scan1.pdf", None).unwrap();
    assert_eq!(req.dest, "scan1.pdf");
    assert_eq!(req.url, "http://192.168.1.100:8080/scans/scan1.pdf");
}

#[test]
fn download_keeps_explicit_destination() {
    let d = client();
    let req = d.download_scan_by_name("/scan1.pdf", Some("out/copy.pdf")).unwrap();
    assert_eq!(req.dest, "out/copy.pdf");
}

#[test]
fn final_segment_of_nested_path() {
    assert_eq!(file_name_of("/dir/sub/file.pdf"), "file.pdf");
    assert_eq!(file_name_of("plain.pdf"), "plain.pdf");
    assert_eq!(file_name_of("/dir/"), "");
}

#[test]
fn redirect_means_not_found_even_on_success_status() {
    let requested = "http://192.168.1.100:8080/scans/missing.pdf";
    let reply = HttpReply { resolved_url: "http://192.168.1.100:8080/".to_string(), status: 200 };
    assert_eq!(download_response_verdict(requested, &reply).err(), Some(DoxieError::NotFound));
    let reply = HttpReply { resolved_url: "http://192.168.1.100:8080/".to_string(), status: 404 };
    assert_eq!(download_response_verdict(requested, &reply).err(), Some(DoxieError::NotFound));
}

#[test]
fn unredirected_download_judged_by_status() {
    let requested = "http://192.168.1.100:8080/scans/scan1.pdf";
    let reply = HttpReply { resolved_url: requested.to_string(), status: 200 };
    assert!(download_response_verdict(requested, &reply).is_ok());
    let reply = HttpReply { resolved_url: requested.to_string(), status: 500 };
    assert_eq!(
        download_response_verdict(requested, &reply).err(),
        Some(DoxieError::RequestFailed(500))
    );
}

#[test]
fn zero_byte_download_is_empty_download() {
    assert_eq!(
        download_written("scan1.pdf".to_string(), 0).err(),
        Some(DoxieError::EmptyDownload)
    );
    assert_eq!(download_written("scan1.pdf".to_string(), 204800).unwrap(), "scan1.pdf");
}

#[test]
fn delete_url_joins_scans_with_name() {
    let d = client();
    let url = d.delete_scan_by_name("/scan1.pdf").unwrap();
    assert_eq!(url, "http://192.168.1.100:8080/scans/scan1.pdf");
}

#[test]
fn delete_verdict_follows_status() {
    assert!(delete_response_verdict(204).is_ok());
    assert_eq!(delete_response_verdict(500).err(), Some(DoxieError::RequestFailed(500)));
}

#[test]
fn batch_delete_posts_json_array_of_names() {
    let d = client();
    let names = vec!["/a.pdf".to_string(), "/b.pdf".to_string()];
    let req = d.delete_scans_by_names(&names).unwrap();
    assert_eq!(req.url, "http://192.168.1.100:8080/scans/delete.json");
    assert_eq!(req.body, "[\"/a.pdf\",\"/b.pdf\"]");
    assert!(delete_response_verdict(200).is_ok());
    assert_eq!(delete_response_verdict(503).err(), Some(DoxieError::RequestFailed(503)));
}

#[test]
fn success_status_class_bounds() {
    assert!(!is_success_status(199));
    assert!(is_success_status(200));
    assert!(is_success_status(299));
    assert!(!is_success_status(300));
}

#[test]
fn render_reproduces_name_size_and_timestamp() {
    let entry = ScanEntry {
        name: "/scan1.pdf".to_string(),
        size: 204800,
        modified: DateTime { year: 2019, month: 3, day: 1, hour: 10, minute: 15, second: 0 },
    };
    assert_eq!(
        entry.render(),
        "ScanEntry {\n    name: \"/scan1.pdf\",\n    size: 204800\n    modified: \"2019-03-01 10:15:00\"\n}"
    );
}

#[test]
fn timestamp_format_and_parse_round_trip() {
    let dt = DateTime { year: 2020, month: 2, day: 29, hour: 0, minute: 0, second: 0 };
    let text = format_datetime(&dt);
    assert_eq!(text, "2020-02-29 00:00:00");
    assert_eq!(parse_datetime(&text), Some(dt));
}

#[test]
fn timestamp_rejects_impossible_dates() {
    assert_eq!(parse_datetime("2019-02-29 10:00:00"), None);
    assert_eq!(parse_datetime("2019-13-01 10:00:00"), None);
    assert_eq!(parse_datetime("2019-04-31 10:00:00"), None);
    assert_eq!(parse_datetime("2019-03-01 24:00:00"), None);
    assert_eq!(parse_datetime("2019-03-01T10:00:00"), None);
    assert_eq!(parse_datetime("2019-3-01 10:00:00"), None);
    assert!(parse_datetime("2020-02-29 10:00:00").is_some());
}

#[test]
fn sizes_parse_like_std() {
    assert_eq!(parse_usize_str("12345"), Some(12345));
    assert_eq!(parse_usize_str("+12345"), Some(12345));
    assert_eq!(parse_usize_str("0"), Some(0));
    assert_eq!(parse_usize_str(""), None);
    assert_eq!(parse_usize_str("+"), None);
    assert_eq!(parse_usize_str("12 45"), None);
    assert_eq!(parse_usize_str("-1"), None);
    assert_eq!(parse_usize_str("99999999999999999999999999"), None);
    assert_eq!("+12345".parse::<usize>().ok(), parse_usize_str("+12345"));
    assert_eq!("99999999999999999999999999".parse::<usize>().ok(), None);
}

#[test]
fn discovery_finds_origin_of_matching_response() {
    let responses = vec![SsdpResponse {
        urn: URN.to_string(),
        location: "http://192.168.1.100:8080/index.html".to_string(),
    }];
    let r = discover_doxie(&responses).unwrap();
    assert_eq!(r, Some("http://192.168.1.100:8080".to_string()));
}

#[test]
fn discovery_ignores_other_services() {
    let noise1 = SsdpResponse {
        urn: "schemas-upnp-org:device:MediaServer:1".to_string(),
        location: "http://10.0.0.1:9000/desc.xml".to_string(),
    };
    let matching = SsdpResponse {
        urn: URN.to_string(),
        location: "http://192.168.1.100:8080/index.html".to_string(),
    };
    let noise2 = SsdpResponse {
        urn: "schemas-upnp-org:device:Printer:1".to_string(),
        location: "::garbage::".to_string(),
    };
    let r = discover_doxie(&vec![noise1.clone(), matching.clone(), noise2.clone()]).unwrap();
    assert_eq!(r, Some("http://192.168.1.100:8080".to_string()));
    let r = discover_doxie(&vec![matching, noise2, noise1]).unwrap();
    assert_eq!(r, Some("http://192.168.1.100:8080".to_string()));
}

#[test]
fn discovery_without_match_finds_nothing() {
    let noise = SsdpResponse {
        urn: "schemas-upnp-org:device:MediaServer:1".to_string(),
        location: "http://10.0.0.1:9000/desc.xml".to_string(),
    };
    assert_eq!(discover_doxie(&vec![]).unwrap(), None);
    assert_eq!(discover_doxie(&vec![noise]).unwrap(), None);
}

#[test]
fn discovery_last_match_wins() {
    let first = SsdpResponse {
        urn: URN.to_string(),
        location: "http://192.168.1.100:8080/index.html".to_string(),
    };
    let second = SsdpResponse {
        urn: URN.to_string(),
        location: "https://192.168.1.200/home".to_string(),
    };
    let r = discover_doxie(&vec![first, second]).unwrap();
    assert_eq!(r, Some("https://192.168.1.200".to_string()));
}

#[test]
fn discovery_fails_on_unparsable_matching_location() {
    let bad = SsdpResponse { urn: URN.to_string(), location: "not a url".to_string() };
    assert_eq!(discover_doxie(&vec![bad]).err(), Some(DoxieError::MalformedDeviceResponse));
}
