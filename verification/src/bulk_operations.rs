use crate::error::{BulkError, Cause, Phase};
use crate::json::{json_read, keys_of, value_at, Json};
use crate::text::{between, cut_between};
use vstd::prelude::*;
use vstd::string::*;

verus! {

broadcast use vstd::string::group_string_axioms;

/// The bulk query that exports every product with its variants: for each
/// variant its identifier, barcode, price and compare-at price.
pub const EXPORT_QUERY: &'static str = r#"mutation {
            bulkOperationRunQuery(
             query: """
              {
                products {
                  edges {
                    node {
                          id,
                      variants(first:13) {
                              edges {
                                  node {
                                      id,
                                      barcode,
                                      price,
                                      compareAtPrice
                                  }
                              }
                          }
                    }
                  }
                }
              }
              """
            ) {
              bulkOperation {
                id
                status
              }
              userErrors {
                field
                message
              }
            }
          }
     "#;

/// The status query for an export job, up to the job's identifier.
pub const STATUS_QUERY_HEAD: &'static str = r#"query {
                node(id: ""#;

/// The status query for an export job, after the job's identifier.
pub const STATUS_QUERY_TAIL: &'static str = r#"") {
                  ... on BulkOperation {
                    url
                    partialDataUrl
                  }
                }
              }
            "#;

/// The bulk mutation that applies a batch file, up to the file's storage key.
pub const UPDATE_MUTATION_HEAD: &'static str = r#"mutation {
            bulkOperationRunMutation(
              mutation: "mutation productVariantUpdate($input: ProductVariantInput!) { productVariantUpdate(input: $input) { productVariant { id,price,compareAtPrice} userErrors {field,message}}}",
              stagedUploadPath: ""#;

/// The bulk mutation that applies a batch file, after the file's storage key.
pub const UPDATE_MUTATION_TAIL: &'static str = r#""
            ) {
              bulkOperation {
                id
                errorCode
                status
              }
              userErrors {
                field
                message
              }
            }
          }
     "#;

/// The mutation that asks for a staged upload target for the batch file.
pub const STAGED_UPLOAD_MUTATION: &'static str = r#"mutation {
            stagedUploadsCreate(input:{
                       resource: BULK_MUTATION_VARIABLES,
                       filename: "upload.jsonl",
                       mimeType: "text/jsonl",
                       httpMethod: POST
                     }){
                       userErrors{
                         field,
                         message
                       },
                       stagedTargets{
                         url,
                         resourceUrl,
                         parameters {
                           name,
                           value
                         }
                       }
                     }
                   }
     "#;

/// The marker before the storage key in the confirmation of an upload.
pub const KEY_OPEN: &'static str = "<Key>";

/// The marker after the storage key in the confirmation of an upload.
pub const KEY_CLOSE: &'static str = "</Key>";

/// The status with which the platform accepts a bulk job.
pub const ACCEPTED: &'static str = "CREATED";

/// The name of the form field that carries the batch file.
pub const FILE_FIELD: &'static str = "file";

/// The file name under which the batch file is uploaded.
pub const FILE_NAME: &'static str = "tmp/upload.jsonl";

/// The media type under which the batch file is uploaded.
pub const FILE_TYPE: &'static str = "text/jsonl";

/// How a request ended.
#[derive(Clone, Debug, PartialEq, Eq)]
pub enum Event {
    /// The body of the reply.
    Reply(String),
    /// The request was not delivered, or the body of its reply not decoded.
    TransportFailed,
    /// The batch file could not be read.
    FileUnreadable,
    /// The upload form could not be put together.
    FormRefused,
}

/// An `Event`, as contracts speak of it.
pub enum EventModel {
    Reply(Seq<char>),
    TransportFailed,
    FileUnreadable,
    FormRefused,
}

impl View for Event {
    type V = EventModel;

    open spec fn view(&self) -> EventModel {
        match self {
            Event::Reply(body) => EventModel::Reply(body@),
            Event::TransportFailed => EventModel::TransportFailed,
            Event::FileUnreadable => EventModel::FileUnreadable,
            Event::FormRefused => EventModel::FormRefused,
        }
    }
}

/// The body that a request of `phase` brought back, or the failure of that
/// phase which the event reports.
pub open spec fn delivered(phase: Phase, event: EventModel) -> Result<Seq<char>, BulkError> {
    match event {
        EventModel::Reply(body) => Ok(body),
        EventModel::TransportFailed => Err(BulkError { phase, cause: Cause::Transport }),
        EventModel::FileUnreadable => Err(BulkError { phase, cause: Cause::File }),
        EventModel::FormRefused => Err(BulkError { phase, cause: Cause::Form }),
    }
}

/// The JSON document that a request of `phase` brought back. A body that is
/// not JSON is a parse failure of that phase.
pub open spec fn reply_document(phase: Phase, event: EventModel) -> Result<Json, BulkError> {
    match delivered(phase, event) {
        Ok(body) => match json_read(body) {
            Some(doc) => Ok(doc),
            None => Err(BulkError { phase, cause: Cause::Parse }),
        },
        Err(error) => Err(error),
    }
}

/// The body of the reply that `event` holds.
pub fn reply_body(phase: Phase, event: &Event) -> (outcome: Result<&String, BulkError>)
    ensures
        match outcome {
            Ok(body) => delivered(phase, event@) == Ok::<Seq<char>, BulkError>(body@),
            Err(error) => delivered(phase, event@) == Err::<Seq<char>, BulkError>(error),
        },
{
    match event {
        Event::Reply(body) => Ok(body),
        Event::TransportFailed => Err(BulkError::new(phase, Cause::Transport)),
        Event::FileUnreadable => Err(BulkError::new(phase, Cause::File)),
        Event::FormRefused => Err(BulkError::new(phase, Cause::Form)),
    }
}

/// Reads the reply that `event` holds as a JSON document.
pub fn read_reply(phase: Phase, event: &Event) -> (outcome: Result<Json, BulkError>)
    ensures
        outcome == reply_document(phase, event@),
{
    match reply_body(phase, event) {
        Ok(body) => match Json::parse(body.as_str()) {
            Some(doc) => Ok(doc),
            None => Err(BulkError::new(phase, Cause::Parse)),
        },
        Err(error) => Err(error),
    }
}

/// The string at the end of `path` in `doc`; `None` where the path leads
/// nowhere or to a value that is no string.
pub open spec fn text_at(doc: Json, path: Seq<Seq<char>>) -> Option<Seq<char>> {
    match value_at(doc, path) {
        Some(value) => value.spec_text(),
        None => None,
    }
}

/// Where the reply to the export query holds the job's identifier.
pub open spec fn job_path() -> Seq<Seq<char>> {
    seq!["data"@, "bulkOperationRunQuery"@, "bulkOperation"@, "id"@]
}

/// Where the reply to a status query holds the download address.
pub open spec fn url_path() -> Seq<Seq<char>> {
    seq!["data"@, "node"@, "url"@]
}

/// Where the reply to the update mutation holds the job's status.
pub open spec fn status_path() -> Seq<Seq<char>> {
    seq!["data"@, "bulkOperationRunMutation"@, "bulkOperation"@, "status"@]
}

/// Where the reply to the staged-upload mutation holds its targets.
pub open spec fn targets_path() -> Seq<Seq<char>> {
    seq!["data"@, "stagedUploadsCreate"@, "stagedTargets"@]
}

/// The identifier of the export job in the reply to the export query.
pub open spec fn job_id_in(doc: Json) -> Option<Seq<char>> {
    text_at(doc, job_path())
}

/// The download address in the reply to a status query: `Ok(None)` while the
/// address is absent or null, an error where it is neither null nor a string.
pub open spec fn download_url_in(doc: Json) -> Result<Option<Seq<char>>, BulkError> {
    match value_at(doc, url_path()) {
        None => Ok(None),
        Some(Json::Null) => Ok(None),
        Some(Json::Text(url)) => Ok(Some(url@)),
        Some(_) => Err(BulkError { phase: Phase::Poll, cause: Cause::Parse }),
    }
}

/// Whether the reply to the update mutation says that the job was accepted:
/// its status is `CREATED`. Any other status is a rejection, and a status
/// that is absent or no string is missing.
pub open spec fn update_outcome(doc: Json) -> Result<bool, BulkError> {
    match text_at(doc, status_path()) {
        Some(status) => if status == ACCEPTED@ {
            Ok(true)
        } else {
            Err(BulkError { phase: Phase::Update, cause: Cause::Rejected })
        },
        None => Err(BulkError { phase: Phase::Update, cause: Cause::Missing }),
    }
}

/// Reads the identifier of the export job from the reply to the export query.
pub fn job_id(doc: &Json) -> (id: Option<String>)
    ensures
        match id {
            Some(job) => job_id_in(*doc) == Some(job@),
            None => job_id_in(*doc) is None,
        },
{
    let path = ["data", "bulkOperationRunQuery", "bulkOperation", "id"];
    assert(keys_of(path@) =~= job_path());
    match doc.at(&path) {
        Some(value) => match value.as_text() {
            Some(job) => Some(job.clone()),
            None => None,
        },
        None => None,
    }
}

/// Reads the download address from the reply to a status query.
pub fn download_url(doc: &Json) -> (outcome: Result<Option<String>, BulkError>)
    ensures
        match outcome {
            Ok(Some(url)) => download_url_in(*doc) == Ok::<Option<Seq<char>>, BulkError>(
                Some(url@),
            ),
            Ok(None) => download_url_in(*doc) == Ok::<Option<Seq<char>>, BulkError>(None),
            Err(error) => download_url_in(*doc) == Err::<Option<Seq<char>>, BulkError>(error),
        },
{
    let path = ["data", "node", "url"];
    assert(keys_of(path@) =~= url_path());
    match doc.at(&path) {
        None => Ok(None),
        Some(value) => match value {
            Json::Null => Ok(None),
            Json::Text(url) => Ok(Some(url.clone())),
            _ => Err(BulkError::new(Phase::Poll, Cause::Parse)),
        },
    }
}

/// Checks the reply to the update mutation.
pub fn update_accepted(doc: &Json) -> (outcome: Result<bool, BulkError>)
    ensures
        outcome == update_outcome(*doc),
{
    let path = ["data", "bulkOperationRunMutation", "bulkOperation", "status"];
    assert(keys_of(path@) =~= status_path());
    let status = match doc.at(&path) {
        Some(value) => value.as_text(),
        None => None,
    };
    match status {
        Some(status) => {
            let accepted = String::from_str(ACCEPTED);
            if *status == accepted {
                Ok(true)
            } else {
                Err(BulkError::new(Phase::Update, Cause::Rejected))
            }
        },
        None => Err(BulkError::new(Phase::Update, Cause::Missing)),
    }
}

/// The status query for the export job `job`.
pub open spec fn status_query_text(job: Seq<char>) -> Seq<char> {
    STATUS_QUERY_HEAD@ + job + STATUS_QUERY_TAIL@
}

/// The bulk mutation that applies the batch file stored under `key`.
pub open spec fn update_mutation_text(key: Seq<char>) -> Seq<char> {
    UPDATE_MUTATION_HEAD@ + key + UPDATE_MUTATION_TAIL@
}

/// The document that asks the platform for the state of the export job
/// `job`.
pub fn status_query(job: &str) -> (document: String)
    ensures
        document@ == status_query_text(job@),
{
    let mut document = String::from_str(STATUS_QUERY_HEAD);
    document.append(job);
    document.append(STATUS_QUERY_TAIL);
    document
}

/// The document that submits the bulk update for the batch file stored
/// under `upload_key`.
pub fn bulk_update_request(upload_key: &str) -> (document: String)
    ensures
        document@ == update_mutation_text(upload_key@),
{
    let mut document = String::from_str(UPDATE_MUTATION_HEAD);
    document.append(upload_key);
    document.append(UPDATE_MUTATION_TAIL);
    document
}

/// One storage parameter of a staged upload target.
#[derive(Clone, Debug, PartialEq, Eq)]
pub struct Parameter {
    pub name: String,
    pub value: String,
}

/// A `Parameter`, as contracts speak of it.
pub struct ParameterModel {
    pub name: Seq<char>,
    pub value: Seq<char>,
}

impl View for Parameter {
    type V = ParameterModel;

    open spec fn view(&self) -> ParameterModel {
        ParameterModel { name: self.name@, value: self.value@ }
    }
}

/// The models of a list of parameters, in order.
pub open spec fn models(parameters: Seq<Parameter>) -> Seq<ParameterModel> {
    parameters.map_values(|parameter: Parameter| parameter@)
}

/// Where the platform lets the batch file be uploaded, once.
#[derive(Clone, Debug, PartialEq, Eq)]
pub struct UploadTarget {
    /// The address that takes the upload.
    pub post_url: String,
    /// The storage parameters, in the order in which the platform gave them.
    pub parameters: Vec<Parameter>,
    /// The address of the stored file, where the platform names one.
    pub resource_url: Option<String>,
}

/// An `UploadTarget`, as contracts speak of it.
pub struct TargetModel {
    pub post_url: Seq<char>,
    pub parameters: Seq<ParameterModel>,
    pub resource_url: Option<Seq<char>>,
}

impl View for UploadTarget {
    type V = TargetModel;

    open spec fn view(&self) -> TargetModel {
        TargetModel {
            post_url: self.post_url@,
            parameters: models(self.parameters@),
            resource_url: match self.resource_url {
                Some(url) => Some(url@),
                None => None,
            },
        }
    }
}

/// The text fields of the upload form and the address that takes it. The
/// batch file itself goes into the form after them.
#[derive(Clone, Debug, PartialEq, Eq)]
pub struct UploadForm {
    pub url: String,
    pub fields: Vec<Parameter>,
}

/// An `UploadForm`, as contracts speak of it.
pub struct FormModel {
    pub url: Seq<char>,
    pub fields: Seq<ParameterModel>,
}

impl View for UploadForm {
    type V = FormModel;

    open spec fn view(&self) -> FormModel {
        FormModel { url: self.url@, fields: models(self.fields@) }
    }
}

/// The failure of the negotiation for want of a field.
pub open spec fn no_target() -> BulkError {
    BulkError { phase: Phase::Negotiation, cause: Cause::Missing }
}

/// The parameter that an entry of a target's parameter list gives: its
/// `name` and its `value`, both strings.
pub open spec fn parameter_in(entry: Json) -> Option<ParameterModel> {
    match (entry.spec_member("name"@), entry.spec_member("value"@)) {
        (Some(Json::Text(name)), Some(Json::Text(value))) => Some(
            ParameterModel { name: name@, value: value@ },
        ),
        _ => None,
    }
}

/// The parameters that a parameter list gives, in its order; `None` where
/// one of its entries gives none.
pub open spec fn parameters_in(entries: Seq<Json>) -> Option<Seq<ParameterModel>> {
    if forall|i: int| 0 <= i < entries.len() ==> (#[trigger] parameter_in(entries[i])) is Some {
        Some(entries.map_values(|entry: Json| parameter_in(entry)->0))
    } else {
        None
    }
}

/// The first staged target in the reply to the staged-upload mutation.
pub open spec fn first_target(doc: Json) -> Option<Json> {
    match value_at(doc, targets_path()) {
        Some(targets) => targets.spec_item(0),
        None => None,
    }
}

/// The address of the stored file that a staged target names, if any.
pub open spec fn resource_url_in(target: Json) -> Option<Seq<char>> {
    match target.spec_member("resourceUrl"@) {
        Some(Json::Text(url)) => Some(url@),
        _ => None,
    }
}

/// The upload target in the reply to the staged-upload mutation: the first
/// staged target, with its address and its parameters. Without a first
/// target, an address or a list of parameters the negotiation has failed.
pub open spec fn target_in(doc: Json) -> Result<TargetModel, BulkError> {
    match first_target(doc) {
        Some(first) => match (first.spec_member("url"@), first.spec_member("parameters"@)) {
            (Some(Json::Text(url)), Some(Json::List(entries))) => match parameters_in(entries@) {
                Some(parameters) => Ok(
                    TargetModel {
                        post_url: url@,
                        parameters,
                        resource_url: resource_url_in(first),
                    },
                ),
                None => Err(no_target()),
            },
            _ => Err(no_target()),
        },
        None => Err(no_target()),
    }
}

/// Reads one entry of a target's parameter list.
fn parameter(entry: &Json) -> (found: Option<Parameter>)
    ensures
        match found {
            Some(parameter) => parameter_in(*entry) == Some(parameter@),
            None => parameter_in(*entry) is None,
        },
{
    match (entry.member("name"), entry.member("value")) {
        (Some(Json::Text(name)), Some(Json::Text(value))) => Some(
            Parameter { name: name.clone(), value: value.clone() },
        ),
        _ => None,
    }
}

/// Reads a target's parameter list.
fn parameters(entries: &Vec<Json>) -> (found: Option<Vec<Parameter>>)
    ensures
        match found {
            Some(list) => parameters_in(entries@) == Some(models(list@)),
            None => parameters_in(entries@) is None,
        },
{
    let mut list: Vec<Parameter> = Vec::new();
    let mut i: usize = 0;
    while i < entries.len()
        invariant
            i <= entries.len(),
            list@.len() == i,
            forall|j: int|
                #![trigger list@[j]]
                #![trigger entries@[j]]
                0 <= j < i ==> parameter_in(entries@[j]) == Some(list@[j]@),
        decreases entries.len() - i,
    {
        match parameter(&entries[i]) {
            Some(parameter) => {
                list.push(parameter);
            },
            None => {
                return None;
            },
        }
        i += 1;
    }
    assert(models(list@) =~= entries@.map_values(|entry: Json| parameter_in(entry)->0));
    Some(list)
}

/// Reads the upload target from the reply to the staged-upload mutation.
pub fn upload_target(doc: &Json) -> (outcome: Result<UploadTarget, BulkError>)
    ensures
        match outcome {
            Ok(target) => target_in(*doc) == Ok::<TargetModel, BulkError>(target@),
            Err(error) => target_in(*doc) == Err::<TargetModel, BulkError>(error),
        },
{
    let path = ["data", "stagedUploadsCreate", "stagedTargets"];
    assert(keys_of(path@) =~= targets_path());
    let first = match doc.at(&path) {
        Some(targets) => targets.item(0),
        None => None,
    };
    let missing = BulkError::new(Phase::Negotiation, Cause::Missing);
    match first {
        Some(first) => match (first.member("url"), first.member("parameters")) {
            (Some(Json::Text(url)), Some(Json::List(entries))) => match parameters(entries) {
                Some(list) => {
                    let resource_url = match first.member("resourceUrl") {
                        Some(Json::Text(url)) => Some(url.clone()),
                        _ => None,
                    };
                    Ok(UploadTarget { post_url: url.clone(), parameters: list, resource_url })
                },
                None => Err(missing),
            },
            _ => Err(missing),
        },
        None => Err(missing),
    }
}

/// The names of the form's text fields, in the order of the form.
pub open spec fn field_names() -> Seq<Seq<char>> {
    seq![
        "key"@,
        "x-goog-credential"@,
        "x-goog-algorithm"@,
        "x-goog-date"@,
        "x-goog-signature"@,
        "policy"@,
        "acl"@,
        "Content-Type"@,
        "success_action_status"@,
    ]
}

/// The value of the first parameter named `name`.
pub open spec fn value_of(parameters: Seq<ParameterModel>, name: Seq<char>) -> Option<Seq<char>>
    decreases parameters.len(),
{
    if parameters.len() == 0 {
        None
    } else if parameters[0].name == name {
        Some(parameters[0].value)
    } else {
        value_of(parameters.skip(1), name)
    }
}

/// The fields named `names`, each with the value that `parameters` give
/// under its name; `None` where a name has no parameter.
pub open spec fn fields_for(parameters: Seq<ParameterModel>, names: Seq<Seq<char>>) -> Option<
    Seq<ParameterModel>,
> {
    if forall|i: int| 0 <= i < names.len() ==> (#[trigger] value_of(parameters, names[i])) is Some {
        Some(
            Seq::new(
                names.len(),
                |i: int|
                    ParameterModel {
                        name: names[i],
                        value: value_of(parameters, names[i])->0,
                    },
            ),
        )
    } else {
        None
    }
}

/// The upload form for a target: the storage fields that the provider
/// requires, each found among the target's parameters by its name. A target
/// that lacks one of them gives no form.
pub open spec fn form_for(target: TargetModel) -> Result<FormModel, BulkError> {
    match fields_for(target.parameters, field_names()) {
        Some(fields) => Ok(FormModel { url: target.post_url, fields }),
        None => Err(BulkError { phase: Phase::Upload, cause: Cause::Form }),
    }
}

/// Finds the value of the first parameter named `name`.
fn find_value<'a>(parameters: &'a Vec<Parameter>, name: &str) -> (found: Option<&'a String>)
    ensures
        match found {
            Some(value) => value_of(models(parameters@), name@) == Some(value@),
            None => value_of(models(parameters@), name@) is None,
        },
{
    let wanted = String::from_str(name);
    let ghost all = models(parameters@);
    let mut i: usize = 0;
    assert(all.skip(0) =~= all);
    while i < parameters.len()
        invariant
            i <= parameters.len(),
            wanted@ == name@,
            all == models(parameters@),
            value_of(all, name@) == value_of(all.skip(i as int), name@),
        decreases parameters.len() - i,
    {
        assert(all.skip(i as int).skip(1) =~= all.skip(i + 1));
        assert(all.skip(i as int)[0] == parameters@[i as int]@);
        if parameters[i].name == wanted {
            return Some(&parameters[i].value);
        }
        i += 1;
    }
    None
}

/// Builds the upload form for a target.
pub fn upload_form(target: &UploadTarget) -> (outcome: Result<UploadForm, BulkError>)
    ensures
        match outcome {
            Ok(form) => form_for(target@) == Ok::<FormModel, BulkError>(form@),
            Err(error) => form_for(target@) == Err::<FormModel, BulkError>(error),
        },
{
    let names = [
        "key",
        "x-goog-credential",
        "x-goog-algorithm",
        "x-goog-date",
        "x-goog-signature",
        "policy",
        "acl",
        "Content-Type",
        "success_action_status",
    ];
    assert(keys_of(names@) =~= field_names());
    let ghost given = models(target.parameters@);
    let mut fields: Vec<Parameter> = Vec::new();
    let mut i: usize = 0;
    while i < names.len()
        invariant
            i <= names.len(),
            names@.len() == 9,
            keys_of(names@) == field_names(),
            given == models(target.parameters@),
            fields@.len() == i,
            forall|j: int|
                #![trigger fields@[j]]
                #![trigger field_names()[j]]
                0 <= j < i ==> value_of(given, field_names()[j]) == Some(fields@[j].value@)
                    && fields@[j].name@ == field_names()[j],
        decreases names.len() - i,
    {
        assert(keys_of(names@)[i as int] == names@[i as int]@);
        match find_value(&target.parameters, names[i]) {
            Some(value) => {
                fields.push(Parameter { name: String::from_str(names[i]), value: value.clone() });
            },
            None => {
                return Err(BulkError::new(Phase::Upload, Cause::Form));
            },
        }
        i += 1;
    }
    assert(fields_for(given, field_names()) is Some);
    assert(models(fields@) =~= fields_for(given, field_names())->0);
    Ok(UploadForm { url: target.post_url.clone(), fields })
}

/// The storage key in the confirmation of an upload: what stands between
/// the first `<Key>` and the first `</Key>` after it. A confirmation without
/// these markers names no key.
pub open spec fn storage_key_in(confirmation: Seq<char>) -> Result<Seq<char>, BulkError> {
    match between(confirmation, KEY_OPEN@, KEY_CLOSE@) {
        Some(key) => Ok(key),
        None => Err(BulkError { phase: Phase::Upload, cause: Cause::Missing }),
    }
}

/// Reads the storage key from the confirmation of an upload.
pub fn storage_key(confirmation: &str) -> (outcome: Result<String, BulkError>)
    ensures
        match outcome {
            Ok(key) => storage_key_in(confirmation@) == Ok::<Seq<char>, BulkError>(key@),
            Err(error) => storage_key_in(confirmation@) == Err::<Seq<char>, BulkError>(error),
        },
{
    match cut_between(confirmation, KEY_OPEN, KEY_CLOSE) {
        Some(key) => Ok(key),
        None => Err(BulkError::new(Phase::Upload, Cause::Missing)),
    }
}

/// Where a bulk export stands. The job itself lives on the platform: of it
/// only the identifier is kept.
#[derive(Clone, Debug, PartialEq, Eq)]
pub enum FetchState {
    /// The export query is on its way.
    Submitted,
    /// The export runs, and its state is asked for again and again. `polls`
    /// counts the status replies that held no download address yet.
    Polling { job: String, polls: u64 },
    /// The export is done and can be downloaded from `url`.
    Completed { url: String },
    /// The export has failed.
    Failed { error: BulkError },
}

/// A `FetchState`, as contracts speak of it.
pub enum FetchModel {
    Submitted,
    Polling { job: Seq<char>, polls: nat },
    Completed { url: Seq<char> },
    Failed { error: BulkError },
}

impl View for FetchState {
    type V = FetchModel;

    open spec fn view(&self) -> FetchModel {
        match self {
            FetchState::Submitted => FetchModel::Submitted,
            FetchState::Polling { job, polls } => FetchModel::Polling {
                job: job@,
                polls: *polls as nat,
            },
            FetchState::Completed { url } => FetchModel::Completed { url: url@ },
            FetchState::Failed { error } => FetchModel::Failed { error: *error },
        }
    }
}

/// The number of status requests that a poll loop may spend: `limit` where
/// one is set, and as many as can be counted where none is.
pub open spec fn poll_bound(limit: Option<u64>) -> nat {
    match limit {
        Some(most) => most as nat,
        None => u64::MAX as nat,
    }
}

/// The state of a polling export after one more status reply without a
/// download address: it polls on, unless that reply was the last that the
/// bound allows.
pub open spec fn poll_again(job: Seq<char>, polls: nat, limit: Option<u64>) -> FetchModel {
    if polls + 1 >= poll_bound(limit) {
        FetchModel::Failed { error: BulkError { phase: Phase::Poll, cause: Cause::Timeout } }
    } else {
        FetchModel::Polling { job, polls: polls + 1 }
    }
}

/// The state of an export after `event`. A failure of the request, a reply
/// that is not JSON, and a reply without the expected field each end the
/// export at once: nothing is asked a second time. While the download
/// address is null the export goes on waiting, for as long as `limit`
/// allows. A finished or failed export stays as it is.
pub open spec fn fetch_next(
    state: FetchModel,
    event: EventModel,
    limit: Option<u64>,
) -> FetchModel {
    match state {
        FetchModel::Submitted => match reply_document(Phase::Submission, event) {
            Ok(doc) => match job_id_in(doc) {
                Some(job) => FetchModel::Polling { job, polls: 0 },
                None => FetchModel::Failed {
                    error: BulkError { phase: Phase::Submission, cause: Cause::Missing },
                },
            },
            Err(error) => FetchModel::Failed { error },
        },
        FetchModel::Polling { job, polls } => match reply_document(Phase::Poll, event) {
            Ok(doc) => match download_url_in(doc) {
                Ok(None) => poll_again(job, polls, limit),
                Ok(Some(url)) => FetchModel::Completed { url },
                Err(error) => FetchModel::Failed { error },
            },
            Err(error) => FetchModel::Failed { error },
        },
        FetchModel::Completed { url } => state,
        FetchModel::Failed { error } => state,
    }
}

/// The document to send in `state`; `None` once the export has ended.
pub open spec fn fetch_request(state: FetchModel) -> Option<Seq<char>> {
    match state {
        FetchModel::Submitted => Some(EXPORT_QUERY@),
        FetchModel::Polling { job, polls } => Some(status_query_text(job)),
        FetchModel::Completed { url } => None,
        FetchModel::Failed { error } => None,
    }
}

impl FetchState {
    /// The state in which an export begins.
    pub fn start() -> (state: FetchState)
        ensures
            state@ == FetchModel::Submitted,
    {
        FetchState::Submitted
    }

    /// The document to send next: the export query at first, then the
    /// status query for the job, and nothing once the export has ended.
    pub fn request(&self) -> (document: Option<String>)
        ensures
            match document {
                Some(text) => fetch_request(self@) == Some(text@),
                None => fetch_request(self@) is None,
            },
    {
        match self {
            FetchState::Submitted => Some(String::from_str(EXPORT_QUERY)),
            FetchState::Polling { job, polls: _ } => Some(status_query(job.as_str())),
            FetchState::Completed { url: _ } => None,
            FetchState::Failed { error: _ } => None,
        }
    }
}

/// Takes a bulk export one step further: from its state and the outcome of
/// the request sent in that state to its next state. With a `limit`, the
/// export gives up once that many status requests have brought no download
/// address.
pub fn bulk_fetch_operation(
    state: FetchState,
    event: &Event,
    limit: Option<u64>,
) -> (next: FetchState)
    ensures
        next@ == fetch_next(state@, event@, limit),
{
    match state {
        FetchState::Submitted => match read_reply(Phase::Submission, event) {
            Ok(doc) => match job_id(&doc) {
                Some(job) => FetchState::Polling { job, polls: 0 },
                None => FetchState::Failed {
                    error: BulkError::new(Phase::Submission, Cause::Missing),
                },
            },
            Err(error) => FetchState::Failed { error },
        },
        FetchState::Polling { job, polls } => match read_reply(Phase::Poll, event) {
            Ok(doc) => match download_url(&doc) {
                Ok(None) => {
                    let bound = match limit {
                        Some(most) => most,
                        None => u64::MAX,
                    };
                    if bound == 0 || polls >= bound - 1 {
                        FetchState::Failed { error: BulkError::new(Phase::Poll, Cause::Timeout) }
                    } else {
                        FetchState::Polling { job, polls: polls + 1 }
                    }
                },
                Ok(Some(url)) => FetchState::Completed { url },
                Err(error) => FetchState::Failed { error },
            },
            Err(error) => FetchState::Failed { error },
        },
        FetchState::Completed { url } => FetchState::Completed { url },
        FetchState::Failed { error } => FetchState::Failed { error },
    }
}

/// Where a staged upload stands.
#[derive(Clone, Debug, PartialEq, Eq)]
pub enum UploadState {
    /// The request for an upload target is on its way.
    Negotiating,
    /// The target is known, and the form with the batch file is on its way.
    Sending { form: UploadForm },
    /// The batch file is stored under `key`.
    Stored { key: String },
    /// The upload has failed.
    Failed { error: BulkError },
}

/// An `UploadState`, as contracts speak of it.
pub enum UploadModel {
    Negotiating,
    Sending { form: FormModel },
    Stored { key: Seq<char> },
    Failed { error: BulkError },
}

impl View for UploadState {
    type V = UploadModel;

    open spec fn view(&self) -> UploadModel {
        match self {
            UploadState::Negotiating => UploadModel::Negotiating,
            UploadState::Sending { form } => UploadModel::Sending { form: form@ },
            UploadState::Stored { key } => UploadModel::Stored { key: key@ },
            UploadState::Failed { error } => UploadModel::Failed { error: *error },
        }
    }
}

/// The state of a staged upload after `event`. The reply to the negotiation
/// gives the target and, from it, the form; the confirmation of the upload
/// gives the storage key. Any failure ends the upload at once, and an upload
/// that has ended stays as it is.
pub open spec fn upload_next(state: UploadModel, event: EventModel) -> UploadModel {
    match state {
        UploadModel::Negotiating => match reply_document(Phase::Negotiation, event) {
            Ok(doc) => match target_in(doc) {
                Ok(target) => match form_for(target) {
                    Ok(form) => UploadModel::Sending { form },
                    Err(error) => UploadModel::Failed { error },
                },
                Err(error) => UploadModel::Failed { error },
            },
            Err(error) => UploadModel::Failed { error },
        },
        UploadModel::Sending { form } => match delivered(Phase::Upload, event) {
            Ok(confirmation) => match storage_key_in(confirmation) {
                Ok(key) => UploadModel::Stored { key },
                Err(error) => UploadModel::Failed { error },
            },
            Err(error) => UploadModel::Failed { error },
        },
        UploadModel::Stored { key } => state,
        UploadModel::Failed { error } => state,
    }
}

impl UploadState {
    /// The state in which a staged upload begins.
    pub fn start() -> (state: UploadState)
        ensures
            state@ == UploadModel::Negotiating,
    {
        UploadState::Negotiating
    }

    /// The document to send while negotiating: the staged-upload mutation.
    /// In every other state there is none.
    pub fn request(&self) -> (document: Option<String>)
        ensures
            match document {
                Some(text) => self@ is Negotiating && text@ == STAGED_UPLOAD_MUTATION@,
                None => !(self@ is Negotiating),
            },
    {
        match self {
            UploadState::Negotiating => Some(String::from_str(STAGED_UPLOAD_MUTATION)),
            _ => None,
        }
    }

    /// The form to send with the batch file, once the target is known and
    /// until the upload has ended.
    pub fn form(&self) -> (form: Option<&UploadForm>)
        ensures
            match form {
                Some(form) => self@ == (UploadModel::Sending { form: form@ }),
                None => !(self@ is Sending),
            },
    {
        match self {
            UploadState::Sending { form } => Some(form),
            _ => None,
        }
    }
}

/// Takes a staged upload one step further: from its state and the outcome
/// of the request sent in that state to its next state.
pub fn upload_file_to_shopify(state: UploadState, event: &Event) -> (next: UploadState)
    ensures
        next@ == upload_next(state@, event@),
{
    match state {
        UploadState::Negotiating => match read_reply(Phase::Negotiation, event) {
            Ok(doc) => match upload_target(&doc) {
                Ok(target) => match upload_form(&target) {
                    Ok(form) => UploadState::Sending { form },
                    Err(error) => UploadState::Failed { error },
                },
                Err(error) => UploadState::Failed { error },
            },
            Err(error) => UploadState::Failed { error },
        },
        UploadState::Sending { form } => match reply_body(Phase::Upload, event) {
            Ok(confirmation) => match storage_key(confirmation.as_str()) {
                Ok(key) => UploadState::Stored { key },
                Err(error) => UploadState::Failed { error },
            },
            Err(error) => UploadState::Failed { error },
        },
        UploadState::Stored { key } => UploadState::Stored { key },
        UploadState::Failed { error } => UploadState::Failed { error },
    }
}

/// What the outcome of the update request says of the bulk update: accepted
/// where the reply carries the status `CREATED`, an error of the update in
/// every other case. Acceptance is all that is learnt: whether the job later
/// completes is not asked.
pub open spec fn update_result(event: EventModel) -> Result<bool, BulkError> {
    match reply_document(Phase::Update, event) {
        Ok(doc) => update_outcome(doc),
        Err(error) => Err(error),
    }
}

/// Judges the outcome of the request that submitted the bulk update.
pub fn bulk_update_operation(event: &Event) -> (outcome: Result<bool, BulkError>)
    ensures
        outcome == update_result(event@),
{
    match read_reply(Phase::Update, event) {
        Ok(doc) => update_accepted(&doc),
        Err(error) => Err(error),
    }
}

/// The state of an export after a run of events, taken in order.
pub open spec fn fetch_run(
    state: FetchModel,
    events: Seq<EventModel>,
    limit: Option<u64>,
) -> FetchModel
    decreases events.len(),
{
    if events.len() == 0 {
        state
    } else {
        fetch_run(fetch_next(state, events[0], limit), events.skip(1), limit)
    }
}

/// Whether `event` is a status reply that holds no download address yet.
pub open spec fn still_running(event: EventModel) -> bool {
    match reply_document(Phase::Poll, event) {
        Ok(doc) => download_url_in(doc) == Ok::<Option<Seq<char>>, BulkError>(None),
        Err(error) => false,
    }
}

/// Whether `event` is a status reply that holds the download address `url`.
pub open spec fn offers(event: EventModel, url: Seq<char>) -> bool {
    match reply_document(Phase::Poll, event) {
        Ok(doc) => download_url_in(doc) == Ok::<Option<Seq<char>>, BulkError>(Some(url)),
        Err(error) => false,
    }
}

/// A run of events can be taken in two parts.
pub proof fn lemma_fetch_run_in_parts(
    state: FetchModel,
    events: Seq<EventModel>,
    limit: Option<u64>,
    k: int,
)
    requires
        0 <= k <= events.len(),
    ensures
        fetch_run(state, events, limit) == fetch_run(
            fetch_run(state, events.take(k), limit),
            events.skip(k),
            limit,
        ),
    decreases k,
{
    if k == 0 {
        assert(events.skip(0) =~= events);
    } else {
        assert(events.take(k)[0] == events[0]);
        assert(events.take(k).skip(1) =~= events.skip(1).take(k - 1));
        assert(events.skip(1).skip(k - 1) =~= events.skip(k));
        lemma_fetch_run_in_parts(fetch_next(state, events[0], limit), events.skip(1), limit, k - 1);
    }
}

/// An export that has ended, in success or in failure, is moved by no event.
pub proof fn lemma_ended_export_stays(
    state: FetchModel,
    events: Seq<EventModel>,
    limit: Option<u64>,
)
    requires
        state is Completed || state is Failed,
    ensures
        fetch_run(state, events, limit) == state,
    decreases events.len(),
{
    if events.len() > 0 {
        lemma_ended_export_stays(state, events.skip(1), limit);
    }
}

/// While every reply holds a null address and the bound is not reached, the
/// export goes on polling for the same job, and counts the replies.
pub proof fn lemma_export_waits(
    job: Seq<char>,
    polls: nat,
    events: Seq<EventModel>,
    limit: Option<u64>,
)
    requires
        forall|i: int| 0 <= i < events.len() ==> still_running(#[trigger] events[i]),
        polls + events.len() < poll_bound(limit),
    ensures
        fetch_run(FetchModel::Polling { job, polls }, events, limit) == (FetchModel::Polling {
            job,
            polls: polls + events.len(),
        }),
    decreases events.len(),
{
    if events.len() > 0 {
        assert(still_running(events[0]));
        assert forall|i: int| 0 <= i < events.skip(1).len() implies still_running(
            #[trigger] events.skip(1)[i],
        ) by {
            assert(events.skip(1)[i] == events[i + 1]);
        }
        lemma_export_waits(job, polls + 1, events.skip(1), limit);
    }
}

/// The poll loop ends at the first reply that holds an address, with that
/// address, and not before: after each of the `n` replies with a null
/// address the export still polls, the reply after them completes it, and
/// whatever follows changes nothing. This holds where the bound lets the
/// loop spend the `n + 1` requests.
pub proof fn lemma_poll_ends_at_first_address(
    job: Seq<char>,
    events: Seq<EventModel>,
    limit: Option<u64>,
    n: int,
    url: Seq<char>,
)
    requires
        0 <= n < events.len(),
        n < poll_bound(limit),
        forall|i: int| 0 <= i < n ==> still_running(#[trigger] events[i]),
        offers(events[n], url),
    ensures
        forall|k: int|
            0 <= k <= n ==> #[trigger] fetch_run(
                FetchModel::Polling { job, polls: 0 },
                events.take(k),
                limit,
            ) == (FetchModel::Polling { job, polls: k as nat }),
        fetch_run(FetchModel::Polling { job, polls: 0 }, events.take(n + 1), limit) == (
        FetchModel::Completed { url }),
        fetch_run(FetchModel::Polling { job, polls: 0 }, events, limit) == (FetchModel::Completed {
            url,
        }),
{
    let polling = FetchModel::Polling { job, polls: 0 };
    let waited = FetchModel::Polling { job, polls: n as nat };
    let completed = FetchModel::Completed { url };
    assert forall|k: int| 0 <= k <= n implies #[trigger] fetch_run(polling, events.take(k), limit)
        == (FetchModel::Polling { job, polls: k as nat }) by {
        lemma_export_waits(job, 0, events.take(k), limit);
    }
    let upto = events.take(n + 1);
    lemma_fetch_run_in_parts(polling, upto, limit, n);
    assert(upto.take(n) =~= events.take(n));
    assert(upto.skip(n) =~= seq![events[n]]);
    assert(seq![events[n]].skip(1) =~= Seq::<EventModel>::empty());
    assert(fetch_run(waited, seq![events[n]], limit) == fetch_run(
        fetch_next(waited, events[n], limit),
        Seq::<EventModel>::empty(),
        limit,
    ));
    assert(fetch_run(polling, upto, limit) == completed);
    lemma_fetch_run_in_parts(polling, events, limit, n + 1);
    lemma_ended_export_stays(completed, events.skip(n + 1), limit);
}

/// A poll loop with a bound gives up at the reply that exhausts it: after
/// `most` replies with a null address the export has failed for want of
/// time, whatever follows.
pub proof fn lemma_poll_gives_up_at_the_bound(
    job: Seq<char>,
    events: Seq<EventModel>,
    most: u64,
)
    requires
        1 <= most <= events.len(),
        forall|i: int| 0 <= i < most ==> still_running(#[trigger] events[i]),
    ensures
        fetch_run(FetchModel::Polling { job, polls: 0 }, events, Some(most)) == (
        FetchModel::Failed { error: BulkError { phase: Phase::Poll, cause: Cause::Timeout } }),
{
    let limit = Some(most);
    let polling = FetchModel::Polling { job, polls: 0 };
    let waited = FetchModel::Polling { job, polls: (most - 1) as nat };
    let failed = FetchModel::Failed {
        error: BulkError { phase: Phase::Poll, cause: Cause::Timeout },
    };
    let upto = events.take(most as int);
    lemma_fetch_run_in_parts(polling, upto, limit, most - 1);
    lemma_export_waits(job, 0, upto.take(most - 1), limit);
    assert(upto.skip(most - 1) =~= seq![events[most - 1]]);
    assert(seq![events[most - 1]].skip(1) =~= Seq::<EventModel>::empty());
    assert(still_running(events[most - 1]));
    assert(fetch_run(waited, seq![events[most - 1]], limit) == fetch_run(
        fetch_next(waited, events[most - 1], limit),
        Seq::<EventModel>::empty(),
        limit,
    ));
    assert(fetch_run(polling, upto, limit) == failed);
    lemma_fetch_run_in_parts(polling, events, limit, most as int);
    lemma_ended_export_stays(failed, events.skip(most as int), limit);
}

/// The bulk update counts as accepted for a reply with the status `CREATED`
/// and for nothing else: any other outcome of the request is an error of the
/// update.
pub proof fn lemma_update_accepted_only_if_created(event: EventModel)
    ensures
        update_result(event) is Ok <==> (reply_document(Phase::Update, event) matches Ok(doc)
            && text_at(doc, status_path()) == Some(ACCEPTED@)),
        update_result(event) matches Ok(accepted) ==> accepted,
        update_result(event) matches Err(error) ==> error.phase == Phase::Update,
{
}

/// A reply whose list of staged targets is empty fails the negotiation.
pub proof fn lemma_no_staged_target(doc: Json)
    requires
        value_at(doc, targets_path()) matches Some(Json::List(targets)) && targets@.len() == 0,
    ensures
        target_in(doc) == Err::<TargetModel, BulkError>(
            BulkError { phase: Phase::Negotiation, cause: Cause::Missing },
        ),
{
}

/// The names of the storage parameters in the order in which the provider
/// hands them out.
pub open spec fn usual_order() -> Seq<Seq<char>> {
    seq![
        "Content-Type"@,
        "success_action_status"@,
        "acl"@,
        "key"@,
        "x-goog-date"@,
        "x-goog-credential"@,
        "x-goog-algorithm"@,
        "x-goog-signature"@,
        "policy"@,
    ]
}

/// For each field of the form, the place of its parameter in the usual
/// order.
pub open spec fn usual_places() -> Seq<int> {
    seq![3, 5, 6, 4, 7, 8, 2, 0, 1]
}

/// The first parameter with a name gives the value under that name.
proof fn lemma_value_of_first(parameters: Seq<ParameterModel>, name: Seq<char>, place: int)
    requires
        0 <= place < parameters.len(),
        parameters[place].name == name,
        forall|i: int| 0 <= i < place ==> parameters[i].name != name,
    ensures
        value_of(parameters, name) == Some(parameters[place].value),
    decreases place,
{
    if place > 0 {
        let rest = parameters.skip(1);
        assert(rest[place - 1] == parameters[place]);
        assert forall|i: int| 0 <= i < place - 1 implies rest[i].name != name by {
            assert(rest[i] == parameters[i + 1]);
        }
        lemma_value_of_first(rest, name, place - 1);
    }
}

/// The names of the storage parameters differ from one another.
proof fn lemma_usual_order_distinct()
    ensures
        usual_order().len() == 9,
        forall|i: int, j: int|
            0 <= i < j < 9 ==> #[trigger] usual_order()[i] != #[trigger] usual_order()[j],
{
    reveal_strlit("Content-Type");
    reveal_strlit("success_action_status");
    reveal_strlit("acl");
    reveal_strlit("key");
    reveal_strlit("x-goog-date");
    reveal_strlit("x-goog-credential");
    reveal_strlit("x-goog-algorithm");
    reveal_strlit("x-goog-signature");
    reveal_strlit("policy");
    assert("Content-Type"@.len() == 12);
    assert("success_action_status"@.len() == 21);
    assert("acl"@.len() == 3);
    assert("key"@.len() == 3);
    assert("x-goog-date"@.len() == 11);
    assert("x-goog-credential"@.len() == 17);
    assert("x-goog-algorithm"@.len() == 16);
    assert("x-goog-signature"@.len() == 16);
    assert("policy"@.len() == 6);
    assert("acl"@[0] != "key"@[0]);
    assert("x-goog-algorithm"@[7] != "x-goog-signature"@[7]);
}

/// Where the parameters of a target come in the provider's usual order, the
/// form carries, field by field, the value at the field's usual place:
/// finding the parameters by name then agrees with taking them by position.
pub proof fn lemma_form_from_usual_order(target: TargetModel)
    requires
        target.parameters.len() >= 9,
        forall|i: int| 0 <= i < 9 ==> (#[trigger] target.parameters[i]).name == usual_order()[i],
    ensures
        form_for(target) is Ok,
        form_for(target)->Ok_0.url == target.post_url,
        form_for(target)->Ok_0.fields.len() == 9,
        forall|j: int|
            0 <= j < 9 ==> (#[trigger] form_for(target)->Ok_0.fields[j]).name == field_names()[j]
                && form_for(target)->Ok_0.fields[j].value
                == target.parameters[usual_places()[j]].value,
{
    lemma_usual_order_distinct();
    let given = target.parameters;
    assert forall|j: int| 0 <= j < 9 implies #[trigger] value_of(given, field_names()[j]) == Some(
        given[usual_places()[j]].value,
    ) by {
        let place = usual_places()[j];
        assert(field_names()[j] == usual_order()[place]);
        assert(given[place].name == usual_order()[place]);
        assert forall|i: int| 0 <= i < place implies given[i].name != field_names()[j] by {
            assert(given[i].name == usual_order()[i]);
            assert(usual_order()[i] != usual_order()[place]);
        }
        lemma_value_of_first(given, field_names()[j], place);
    }
}

} // verus!
