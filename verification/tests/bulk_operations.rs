use price_sync::bulk_operations::{
    bulk_fetch_operation, bulk_update_operation, bulk_update_request, download_url, job_id,
    read_reply, reply_body, status_query, storage_key, update_accepted, upload_file_to_shopify,
    upload_form, upload_target, Event, FetchState, Parameter, UploadForm, UploadState,
    UploadTarget, ACCEPTED, EXPORT_QUERY, FILE_FIELD, FILE_NAME, FILE_TYPE, KEY_CLOSE, KEY_OPEN,
    STAGED_UPLOAD_MUTATION,
};
use price_sync::error::{BulkError, Cause, Phase};
use price_sync::json::Json;

fn reply(body: &str) -> Event {
    Event::Reply(body.to_string())
}

fn failed(phase: Phase, cause: Cause) -> BulkError {
    BulkError { phase, cause }
}

fn polling(job: &str, polls: u64) -> FetchState {
    FetchState::Polling { job: job.to_string(), polls }
}

fn parameter(name: &str, value: &str) -> Parameter {
    Parameter { name: name.to_string(), value: value.to_string() }
}

fn usual_parameters() -> Vec<Parameter> {
    vec![
        parameter("Content-Type", "text/jsonl"),
        parameter("success_action_status", "201"),
        parameter("acl", "private"),
        parameter("key", "tmp/1/bulk/upload.jsonl"),
        parameter("x-goog-date", "20240101T000000Z"),
        parameter("x-goog-credential", "credential"),
        parameter("x-goog-algorithm", "GOOG4-RSA-SHA256"),
        parameter("x-goog-signature", "signature"),
        parameter("policy", "policy-document"),
    ]
}

fn form_fields() -> Vec<Parameter> {
    vec![
        parameter("key", "tmp/1/bulk/upload.jsonl"),
        parameter("x-goog-credential", "credential"),
        parameter("x-goog-algorithm", "GOOG4-RSA-SHA256"),
        parameter("x-goog-date", "20240101T000000Z"),
        parameter("x-goog-signature", "signature"),
        parameter("policy", "policy-document"),
        parameter("acl", "private"),
        parameter("Content-Type", "text/jsonl"),
        parameter("success_action_status", "201"),
    ]
}

fn target_reply(parameters: &[Parameter]) -> String {
    let entries: Vec<String> = parameters
        .iter()
        .map(|p| format!("{{\"name\":\"{}\",\"value\":\"{}\"}}", p.name, p.value))
        .collect();
    format!(
        "{{\"data\":{{\"stagedUploadsCreate\":{{\"userErrors\":[],\"stagedTargets\":[{{\"url\":\"https://storage.example/upload\",\"resourceUrl\":\"https://storage.example/res\",\"parameters\":[{}]}}]}}}}}}",
        entries.join(",")
    )
}

const NULL_URL: &str = "{\"data\":{\"node\":{\"url\":null,\"partialDataUrl\":null}}}";
const READY_URL: &str = "{\"data\":{\"node\":{\"url\":\"https://x\",\"partialDataUrl\":null}}}";
const SUBMITTED: &str = "{\"data\":{\"bulkOperationRunQuery\":{\"bulkOperation\":{\"id\":\"gid://shopify/BulkOperation/7\",\"status\":\"CREATED\"},\"userErrors\":[]}}}";
const CONFIRMATION: &str = "<?xml version='1.0' encoding='UTF-8'?><PostResponse><Location>https://storage.example/upload/tmp/1/bulk/upload.jsonl</Location><Bucket>bucket</Bucket><Key>tmp/1/bulk/upload.jsonl</Key><ETag>\"abc\"</ETag></PostResponse>";

#[test]
fn export_query_is_the_bulk_query_mutation() {
    assert_eq!(EXPORT_QUERY, EXPORT);
    assert!(EXPORT_QUERY.contains("variants(first:13)"));
    assert_eq!(FetchState::start().request().unwrap(), EXPORT);
}

#[test]
fn status_query_names_the_job() {
    assert_eq!(
        status_query("gid://shopify/BulkOperation/7"),
        format!("{}gid://shopify/BulkOperation/7{}", STATUS_HEAD, STATUS_TAIL)
    );
    assert!(status_query("J").contains("node(id: \"J\")"));
    assert_eq!(polling("J", 4).request().unwrap(), status_query("J"));
}

#[test]
fn update_request_names_the_storage_key() {
    assert_eq!(
        bulk_update_request("tmp/1/bulk/upload.jsonl"),
        format!("{}tmp/1/bulk/upload.jsonl{}", UPDATE_HEAD, UPDATE_TAIL)
    );
    assert!(bulk_update_request("K").contains("stagedUploadPath: \"K\""));
}

#[test]
fn staged_upload_mutation_declares_the_batch_file() {
    assert_eq!(STAGED_UPLOAD_MUTATION, STAGED);
    assert!(STAGED_UPLOAD_MUTATION.contains("resource: BULK_MUTATION_VARIABLES"));
    assert!(STAGED_UPLOAD_MUTATION.contains("mimeType: \"text/jsonl\""));
    assert_eq!(UploadState::start().request().unwrap(), STAGED);
}

#[test]
fn protocol_constants() {
    assert_eq!(KEY_OPEN, "<Key>");
    assert_eq!(KEY_CLOSE, "</Key>");
    assert_eq!(ACCEPTED, "CREATED");
    assert_eq!(FILE_FIELD, "file");
    assert_eq!(FILE_NAME, "tmp/upload.jsonl");
    assert_eq!(FILE_TYPE, "text/jsonl");
}

#[test]
fn ended_states_ask_for_nothing() {
    assert_eq!(FetchState::Completed { url: "u".to_string() }.request(), None);
    assert_eq!(FetchState::Failed { error: failed(Phase::Poll, Cause::Parse) }.request(), None);
    assert_eq!(UploadState::Stored { key: "k".to_string() }.request(), None);
    assert_eq!(UploadState::Stored { key: "k".to_string() }.form(), None);
    assert_eq!(UploadState::Negotiating.form(), None);
    let form = UploadForm { url: "u".to_string(), fields: vec![] };
    let sending = UploadState::Sending { form: form.clone() };
    assert_eq!(sending.request(), None);
    assert_eq!(sending.form(), Some(&form));
}

#[test]
fn reply_body_hands_out_the_body_or_the_failure() {
    assert_eq!(reply_body(Phase::Upload, &reply("abc")), Ok(&"abc".to_string()));
    assert_eq!(
        reply_body(Phase::Upload, &Event::TransportFailed),
        Err(failed(Phase::Upload, Cause::Transport))
    );
    assert_eq!(
        reply_body(Phase::Upload, &Event::FileUnreadable),
        Err(failed(Phase::Upload, Cause::File))
    );
    assert_eq!(
        reply_body(Phase::Upload, &Event::FormRefused),
        Err(failed(Phase::Upload, Cause::Form))
    );
}

#[test]
fn read_reply_parses_the_body() {
    assert_eq!(
        read_reply(Phase::Poll, &reply("{\"a\":null}")),
        Ok(Json::Record(vec![("a".to_string(), Json::Null)]))
    );
    assert_eq!(read_reply(Phase::Poll, &reply("<html>")), Err(failed(Phase::Poll, Cause::Parse)));
    assert_eq!(
        read_reply(Phase::Update, &Event::TransportFailed),
        Err(failed(Phase::Update, Cause::Transport))
    );
}

#[test]
fn job_id_is_read_at_its_path() {
    let doc = Json::parse(SUBMITTED).unwrap();
    assert_eq!(job_id(&doc), Some("gid://shopify/BulkOperation/7".to_string()));
    let rejected = Json::parse(
        "{\"data\":{\"bulkOperationRunQuery\":{\"bulkOperation\":null,\"userErrors\":[{\"message\":\"busy\"}]}}}",
    )
    .unwrap();
    assert_eq!(job_id(&rejected), None);
    let number = Json::parse("{\"data\":{\"bulkOperationRunQuery\":{\"bulkOperation\":{\"id\":7}}}}").unwrap();
    assert_eq!(job_id(&number), None);
    assert_eq!(job_id(&Json::Null), None);
}

#[test]
fn download_url_tells_waiting_from_ready() {
    assert_eq!(download_url(&Json::parse(NULL_URL).unwrap()), Ok(None));
    assert_eq!(download_url(&Json::parse(READY_URL).unwrap()), Ok(Some("https://x".to_string())));
    assert_eq!(download_url(&Json::parse("{\"data\":{\"node\":null}}").unwrap()), Ok(None));
    assert_eq!(download_url(&Json::parse("{\"errors\":[]}").unwrap()), Ok(None));
    assert_eq!(
        download_url(&Json::parse("{\"data\":{\"node\":{\"url\":17}}}").unwrap()),
        Err(failed(Phase::Poll, Cause::Parse))
    );
}

#[test]
fn submission_reply_with_an_id_starts_the_polling() {
    let next = bulk_fetch_operation(FetchState::start(), &reply(SUBMITTED), None);
    assert_eq!(next, polling("gid://shopify/BulkOperation/7", 0));
    let bounded = bulk_fetch_operation(FetchState::start(), &reply(SUBMITTED), Some(0));
    assert_eq!(bounded, polling("gid://shopify/BulkOperation/7", 0));
}

#[test]
fn submission_fails_without_an_id() {
    let no_id = "{\"data\":{\"bulkOperationRunQuery\":{\"bulkOperation\":null,\"userErrors\":[{\"field\":null,\"message\":\"A bulk query operation for this app and shop is already in progress\"}]}}}";
    assert_eq!(
        bulk_fetch_operation(FetchState::Submitted, &reply(no_id), None),
        FetchState::Failed { error: failed(Phase::Submission, Cause::Missing) }
    );
    assert_eq!(
        bulk_fetch_operation(FetchState::Submitted, &reply("not json"), None),
        FetchState::Failed { error: failed(Phase::Submission, Cause::Parse) }
    );
    assert_eq!(
        bulk_fetch_operation(FetchState::Submitted, &Event::TransportFailed, None),
        FetchState::Failed { error: failed(Phase::Submission, Cause::Transport) }
    );
}

#[test]
fn poll_loop_returns_the_url_after_exactly_three_requests() {
    for limit in [None, Some(3), Some(100)] {
        let replies = [reply(NULL_URL), reply(NULL_URL), reply(READY_URL)];
        let mut state = bulk_fetch_operation(FetchState::start(), &reply(SUBMITTED), limit);
        let mut requests = 0;
        while let Some(document) = state.request() {
            assert_eq!(document, status_query("gid://shopify/BulkOperation/7"));
            assert!(requests < replies.len());
            state = bulk_fetch_operation(state, &replies[requests], limit);
            requests += 1;
            if requests < 3 {
                assert_eq!(state, polling("gid://shopify/BulkOperation/7", requests as u64));
            }
        }
        assert_eq!(requests, 3);
        assert_eq!(state, FetchState::Completed { url: "https://x".to_string() });
    }
}

#[test]
fn poll_does_not_return_while_the_url_is_null() {
    let mut state = polling("J", 0);
    for seen in 1..=25 {
        state = bulk_fetch_operation(state, &reply(NULL_URL), None);
        assert_eq!(state, polling("J", seen));
    }
}

#[test]
fn poll_gives_up_when_the_limit_is_spent() {
    let timeout = FetchState::Failed { error: failed(Phase::Poll, Cause::Timeout) };
    let mut state = polling("J", 0);
    state = bulk_fetch_operation(state, &reply(NULL_URL), Some(3));
    assert_eq!(state, polling("J", 1));
    state = bulk_fetch_operation(state, &reply(NULL_URL), Some(3));
    assert_eq!(state, polling("J", 2));
    state = bulk_fetch_operation(state, &reply(NULL_URL), Some(3));
    assert_eq!(state, timeout);
    assert_eq!(state.request(), None);
    assert_eq!(bulk_fetch_operation(polling("J", 0), &reply(NULL_URL), Some(1)), timeout);
    assert_eq!(bulk_fetch_operation(polling("J", 0), &reply(NULL_URL), Some(0)), timeout);
    assert_eq!(bulk_fetch_operation(polling("J", 9), &reply(NULL_URL), Some(4)), timeout);
}

#[test]
fn poll_takes_the_url_with_its_last_request() {
    let done = FetchState::Completed { url: "https://x".to_string() };
    assert_eq!(bulk_fetch_operation(polling("J", 2), &reply(READY_URL), Some(3)), done);
    assert_eq!(bulk_fetch_operation(polling("J", 0), &reply(READY_URL), Some(0)), done);
}

#[test]
fn poll_without_a_limit_ends_where_the_count_does() {
    let timeout = FetchState::Failed { error: failed(Phase::Poll, Cause::Timeout) };
    let late = polling("J", u64::MAX - 1);
    assert_eq!(bulk_fetch_operation(late, &reply(NULL_URL), None), timeout);
    let last = polling("J", u64::MAX);
    assert_eq!(bulk_fetch_operation(last, &reply(NULL_URL), None), timeout);
    let early = polling("J", u64::MAX - 2);
    assert_eq!(bulk_fetch_operation(early, &reply(NULL_URL), None), polling("J", u64::MAX - 1));
}

#[test]
fn poll_fails_at_once_on_a_single_bad_reply() {
    assert_eq!(
        bulk_fetch_operation(polling("J", 0), &Event::TransportFailed, None),
        FetchState::Failed { error: failed(Phase::Poll, Cause::Transport) }
    );
    assert_eq!(
        bulk_fetch_operation(polling("J", 0), &reply("{\"data\":"), None),
        FetchState::Failed { error: failed(Phase::Poll, Cause::Parse) }
    );
    assert_eq!(
        bulk_fetch_operation(polling("J", 0), &reply("{\"data\":{\"node\":{\"url\":[]}}}"), None),
        FetchState::Failed { error: failed(Phase::Poll, Cause::Parse) }
    );
}

#[test]
fn ended_export_is_moved_by_no_event() {
    let done = FetchState::Completed { url: "https://x".to_string() };
    assert_eq!(bulk_fetch_operation(done.clone(), &reply(NULL_URL), None), done);
    assert_eq!(bulk_fetch_operation(done.clone(), &Event::TransportFailed, Some(1)), done);
    let broken = FetchState::Failed { error: failed(Phase::Poll, Cause::Transport) };
    assert_eq!(bulk_fetch_operation(broken.clone(), &reply(READY_URL), None), broken);
}

#[test]
fn upload_target_is_read_from_the_first_staged_target() {
    let doc = Json::parse(&target_reply(&usual_parameters())).unwrap();
    assert_eq!(
        upload_target(&doc),
        Ok(UploadTarget {
            post_url: "https://storage.example/upload".to_string(),
            parameters: usual_parameters(),
            resource_url: Some("https://storage.example/res".to_string()),
        })
    );
}

#[test]
fn upload_target_needs_no_resource_url() {
    let doc = Json::parse(
        "{\"data\":{\"stagedUploadsCreate\":{\"stagedTargets\":[{\"url\":\"u\",\"parameters\":[]},{\"url\":\"second\"}]}}}",
    )
    .unwrap();
    assert_eq!(
        upload_target(&doc),
        Ok(UploadTarget { post_url: "u".to_string(), parameters: vec![], resource_url: None })
    );
}

#[test]
fn negotiation_fails_on_an_empty_list_of_staged_targets() {
    let empty = "{\"data\":{\"stagedUploadsCreate\":{\"userErrors\":[],\"stagedTargets\":[]}}}";
    let missing = failed(Phase::Negotiation, Cause::Missing);
    assert_eq!(upload_target(&Json::parse(empty).unwrap()), Err(missing));
    assert_eq!(
        upload_file_to_shopify(UploadState::start(), &reply(empty)),
        UploadState::Failed { error: missing }
    );
}

#[test]
fn negotiation_fails_without_url_or_parameters() {
    let missing = Err(failed(Phase::Negotiation, Cause::Missing));
    let cases = [
        "{}",
        "{\"data\":{\"stagedUploadsCreate\":{\"stagedTargets\":null}}}",
        "{\"data\":{\"stagedUploadsCreate\":{\"stagedTargets\":[{\"parameters\":[]}]}}}",
        "{\"data\":{\"stagedUploadsCreate\":{\"stagedTargets\":[{\"url\":null,\"parameters\":[]}]}}}",
        "{\"data\":{\"stagedUploadsCreate\":{\"stagedTargets\":[{\"url\":\"u\"}]}}}",
        "{\"data\":{\"stagedUploadsCreate\":{\"stagedTargets\":[{\"url\":\"u\",\"parameters\":{}}]}}}",
        "{\"data\":{\"stagedUploadsCreate\":{\"stagedTargets\":[{\"url\":\"u\",\"parameters\":[{\"name\":\"key\"}]}]}}}",
        "{\"data\":{\"stagedUploadsCreate\":{\"stagedTargets\":[{\"url\":\"u\",\"parameters\":[{\"name\":\"key\",\"value\":1}]}]}}}",
        "{\"data\":{\"stagedUploadsCreate\":{\"stagedTargets\":[{\"url\":\"u\",\"parameters\":[{\"value\":\"v\"}]}]}}}",
    ];
    for case in cases {
        assert_eq!(upload_target(&Json::parse(case).unwrap()), missing);
    }
}

#[test]
fn negotiation_fails_on_transport_and_parse_errors() {
    assert_eq!(
        upload_file_to_shopify(UploadState::Negotiating, &Event::TransportFailed),
        UploadState::Failed { error: failed(Phase::Negotiation, Cause::Transport) }
    );
    assert_eq!(
        upload_file_to_shopify(UploadState::Negotiating, &reply("<html>")),
        UploadState::Failed { error: failed(Phase::Negotiation, Cause::Parse) }
    );
}

#[test]
fn form_takes_each_field_from_the_parameter_of_its_name() {
    let target = UploadTarget {
        post_url: "https://storage.example/upload".to_string(),
        parameters: usual_parameters(),
        resource_url: None,
    };
    let form = upload_form(&target).unwrap();
    assert_eq!(form.url, "https://storage.example/upload");
    assert_eq!(form.fields, form_fields());
}

#[test]
fn form_in_the_usual_order_takes_the_usual_places() {
    let given = usual_parameters();
    let target = UploadTarget { post_url: "u".to_string(), parameters: given.clone(), resource_url: None };
    let form = upload_form(&target).unwrap();
    let places = [3, 5, 6, 4, 7, 8, 2, 0, 1];
    assert_eq!(form.fields.len(), 9);
    for (field, place) in form.fields.iter().zip(places) {
        assert_eq!(field.value, given[place].value);
    }
}

#[test]
fn form_does_not_depend_on_the_order_of_the_parameters() {
    let mut shuffled = usual_parameters();
    shuffled.reverse();
    shuffled.insert(4, parameter("x-extra", "ignored"));
    shuffled.push(parameter("key", "a second key is not taken"));
    let target = UploadTarget { post_url: "u".to_string(), parameters: shuffled, resource_url: None };
    assert_eq!(upload_form(&target).unwrap().fields, form_fields());
}

#[test]
fn form_cannot_be_built_without_a_required_parameter() {
    for missing in 0..9 {
        let mut parameters = usual_parameters();
        parameters.remove(missing);
        let target = UploadTarget { post_url: "u".to_string(), parameters, resource_url: None };
        assert_eq!(upload_form(&target), Err(failed(Phase::Upload, Cause::Form)));
    }
    let mut short = usual_parameters();
    short.pop();
    let state = upload_file_to_shopify(UploadState::Negotiating, &reply(&target_reply(&short)));
    assert_eq!(state, UploadState::Failed { error: failed(Phase::Upload, Cause::Form) });
}

#[test]
fn storage_key_stands_between_its_markers() {
    assert_eq!(storage_key(CONFIRMATION), Ok("tmp/1/bulk/upload.jsonl".to_string()));
    assert_eq!(storage_key("<Key></Key>"), Ok(String::new()));
    assert_eq!(storage_key("<Key>a<Key>b</Key>"), Ok("a<Key>b".to_string()));
}

#[test]
fn storage_key_is_missing_without_its_markers() {
    let missing = Err(failed(Phase::Upload, Cause::Missing));
    assert_eq!(storage_key(""), missing);
    assert_eq!(storage_key("<Error><Code>AccessDenied</Code></Error>"), missing);
    assert_eq!(storage_key("<Key>never closed"), missing);
    assert_eq!(storage_key("</Key>before<Key>"), missing);
}

#[test]
fn upload_runs_from_negotiation_to_the_stored_key() {
    let state = UploadState::start();
    assert_eq!(state.request().unwrap(), STAGED_UPLOAD_MUTATION);
    let state = upload_file_to_shopify(state, &reply(&target_reply(&usual_parameters())));
    let form = UploadForm { url: "https://storage.example/upload".to_string(), fields: form_fields() };
    assert_eq!(state, UploadState::Sending { form: form.clone() });
    assert_eq!(state.form(), Some(&form));
    let state = upload_file_to_shopify(state, &reply(CONFIRMATION));
    assert_eq!(state, UploadState::Stored { key: "tmp/1/bulk/upload.jsonl".to_string() });
    let again = upload_file_to_shopify(state.clone(), &Event::TransportFailed);
    assert_eq!(again, state);
}

#[test]
fn upload_fails_when_the_file_or_the_form_or_the_transport_fails() {
    let sending = UploadState::Sending { form: UploadForm { url: "u".to_string(), fields: form_fields() } };
    assert_eq!(
        upload_file_to_shopify(sending.clone(), &Event::FileUnreadable),
        UploadState::Failed { error: failed(Phase::Upload, Cause::File) }
    );
    assert_eq!(
        upload_file_to_shopify(sending.clone(), &Event::FormRefused),
        UploadState::Failed { error: failed(Phase::Upload, Cause::Form) }
    );
    assert_eq!(
        upload_file_to_shopify(sending.clone(), &Event::TransportFailed),
        UploadState::Failed { error: failed(Phase::Upload, Cause::Transport) }
    );
    assert_eq!(
        upload_file_to_shopify(sending.clone(), &reply("<Error/>")),
        UploadState::Failed { error: failed(Phase::Upload, Cause::Missing) }
    );
    let broken = UploadState::Failed { error: failed(Phase::Upload, Cause::File) };
    assert_eq!(upload_file_to_shopify(broken.clone(), &reply(CONFIRMATION)), broken);
}

#[test]
fn update_is_accepted_with_status_created() {
    let created = "{\"data\":{\"bulkOperationRunMutation\":{\"bulkOperation\":{\"id\":\"gid://shopify/BulkOperation/9\",\"errorCode\":null,\"status\":\"CREATED\"},\"userErrors\":[]}}}";
    assert_eq!(bulk_update_operation(&reply(created)), Ok(true));
    assert_eq!(update_accepted(&Json::parse(created).unwrap()), Ok(true));
}

#[test]
fn update_is_rejected_with_any_other_status() {
    for status in ["RUNNING", "COMPLETED", "FAILED", "created", "CREATED ", ""] {
        let body = format!(
            "{{\"data\":{{\"bulkOperationRunMutation\":{{\"bulkOperation\":{{\"status\":\"{}\"}}}}}}}}",
            status
        );
        assert_eq!(bulk_update_operation(&reply(&body)), Err(failed(Phase::Update, Cause::Rejected)));
    }
}

#[test]
fn update_fails_without_a_status() {
    let missing = Err(failed(Phase::Update, Cause::Missing));
    let cases = [
        "{}",
        "{\"data\":{\"bulkOperationRunMutation\":{\"bulkOperation\":null,\"userErrors\":[{\"message\":\"no\"}]}}}",
        "{\"data\":{\"bulkOperationRunMutation\":{\"bulkOperation\":{\"id\":\"1\"}}}}",
        "{\"data\":{\"bulkOperationRunMutation\":{\"bulkOperation\":{\"status\":null}}}}",
        "{\"data\":{\"bulkOperationRunMutation\":{\"bulkOperation\":{\"status\":1}}}}",
    ];
    for case in cases {
        assert_eq!(bulk_update_operation(&reply(case)), missing);
    }
}

#[test]
fn update_fails_on_transport_and_parse_errors() {
    assert_eq!(
        bulk_update_operation(&Event::TransportFailed),
        Err(failed(Phase::Update, Cause::Transport))
    );
    assert_eq!(bulk_update_operation(&reply("Bad Gateway")), Err(failed(Phase::Update, Cause::Parse)));
}

const EXPORT: &str = r#"mutation {
            bulkOperationRunQuery(
             query: """
              {
                products {
                  edges {
                    node {
                          id,
                      variants(first:13) {
                              edges {
                                  node {
                                      id,
                                      barcode,
                                      price,
                                      compareAtPrice
                                  }
                              }
                          }
                    }
                  }
                }
              }
              """
            ) {
              bulkOperation {
                id
                status
              }
              userErrors {
                field
                message
              }
            }
          }
     "#;

const STATUS_HEAD: &str = r#"query {
                node(id: ""#;

const STATUS_TAIL: &str = r#"") {
                  ... on BulkOperation {
                    url
                    partialDataUrl
                  }
                }
              }
            "#;

const UPDATE_HEAD: &str = r#"mutation {
            bulkOperationRunMutation(
              mutation: "mutation productVariantUpdate($input: ProductVariantInput!) { productVariantUpdate(input: $input) { productVariant { id,price,compareAtPrice} userErrors {field,message}}}",
              stagedUploadPath: ""#;

const UPDATE_TAIL: &str = r#""
            ) {
              bulkOperation {
                id
                errorCode
                status
              }
              userErrors {
                field
                message
              }
            }
          }
     "#;

const STAGED: &str = r#"mutation {
            stagedUploadsCreate(input:{
                       resource: BULK_MUTATION_VARIABLES,
                       filename: "upload.jsonl",
                       mimeType: "text/jsonl",
                       httpMethod: POST
                     }){
                       userErrors{
                         field,
                         message
                       },
                       stagedTargets{
                         url,
                         resourceUrl,
                         parameters {
                           name,
                           value
                         }
                       }
                     }
                   }
     "#;
