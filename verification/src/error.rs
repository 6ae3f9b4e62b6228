use vstd::prelude::*;
use vstd::string::StringExecFns;

verus! {

/// The payload of an error: a short code, a message for people, where the
/// error arose and a snapshot of the inputs of the call that met it.
#[derive(Clone, Debug, PartialEq, Eq)]
pub struct ErrorMessage {
    pub tag: String,
    pub message: String,
    pub location: String,
    pub inputs: Option<Vec<String>>,
}

/// [`ErrorMessage`] as contracts speak of it.
pub struct ErrorMessageView {
    pub tag: Seq<char>,
    pub message: Seq<char>,
    pub location: Seq<char>,
    pub inputs: Option<Seq<Seq<char>>>,
}

impl View for ErrorMessage {
    type V = ErrorMessageView;

    open spec fn view(&self) -> ErrorMessageView {
        ErrorMessageView {
            tag: self.tag@,
            message: self.message@,
            location: self.location@,
            inputs: self.inputs.deep_view(),
        }
    }
}

/// One field of a record that did not pass validation, and why.
#[derive(Clone, Debug, PartialEq, Eq)]
pub struct ValidationResponse {
    pub field: String,
    pub message: String,
}

/// [`ValidationResponse`] as contracts speak of it.
pub struct ValidationResponseView {
    pub field: Seq<char>,
    pub message: Seq<char>,
}

impl View for ValidationResponse {
    type V = ValidationResponseView;

    open spec fn view(&self) -> ValidationResponseView {
        ValidationResponseView { field: self.field@, message: self.message@ }
    }
}

impl DeepView for ValidationResponse {
    type V = ValidationResponseView;

    open spec fn deep_view(&self) -> ValidationResponseView {
        self@
    }
}

/// The kinds of error that carry an [`ErrorMessage`] built by [`api_error`].
#[derive(Clone, Copy, Debug, PartialEq, Eq, Structural)]
pub enum ApiErrorType {
    Unexpected,
    Unauthorized,
    NotFound,
    BadRequest,
}

/// What a call reports when it does not succeed.
#[derive(Clone, Debug, PartialEq, Eq)]
pub enum ApiError {
    Unexpected(ErrorMessage),
    Unauthorized(ErrorMessage),
    NotFound(ErrorMessage),
    BadRequest(ErrorMessage),
    ValidationError(Vec<ValidationResponse>),
    CanisterAtCapacity(ErrorMessage),
}

/// [`ApiError`] as contracts speak of it.
pub enum ApiErrorView {
    Unexpected(ErrorMessageView),
    Unauthorized(ErrorMessageView),
    NotFound(ErrorMessageView),
    BadRequest(ErrorMessageView),
    ValidationError(Seq<ValidationResponseView>),
    CanisterAtCapacity(ErrorMessageView),
}

impl View for ApiError {
    type V = ApiErrorView;

    open spec fn view(&self) -> ApiErrorView {
        match self {
            ApiError::Unexpected(m) => ApiErrorView::Unexpected(m@),
            ApiError::Unauthorized(m) => ApiErrorView::Unauthorized(m@),
            ApiError::NotFound(m) => ApiErrorView::NotFound(m@),
            ApiError::BadRequest(m) => ApiErrorView::BadRequest(m@),
            ApiError::ValidationError(v) => ApiErrorView::ValidationError(v.deep_view()),
            ApiError::CanisterAtCapacity(m) => ApiErrorView::CanisterAtCapacity(m@),
        }
    }
}

/// Where an error arose: the node, the name it goes by and the method,
/// joined by slashes.
pub open spec fn location_of(origin: Seq<char>, name: Seq<char>, method_name: Seq<char>) -> Seq<
    char,
> {
    origin + seq!['/'] + name + seq!['/'] + method_name
}

/// The error of the given kind with the given payload.
pub open spec fn error_of(
    kind: ApiErrorType,
    tag: Seq<char>,
    message: Seq<char>,
    location: Seq<char>,
    inputs: Option<Seq<Seq<char>>>,
) -> ApiErrorView {
    let payload = ErrorMessageView { tag, message, location, inputs };
    match kind {
        ApiErrorType::Unexpected => ApiErrorView::Unexpected(payload),
        ApiErrorType::Unauthorized => ApiErrorView::Unauthorized(payload),
        ApiErrorType::NotFound => ApiErrorView::NotFound(payload),
        ApiErrorType::BadRequest => ApiErrorView::BadRequest(payload),
    }
}

/// One line of an input snapshot: the input's name, a dash, its value.
pub open spec fn input_line(label: Seq<char>, value: Seq<char>) -> Seq<char> {
    label + seq![' ', '-', ' '] + value
}

/// Builds one line of an input snapshot.
pub fn input(label: &str, value: &str) -> (r: String)
    ensures
        r@ == input_line(label@, value@),
{
    let mut line = String::from_str(label);
    line.append(" - ");
    line.append(value);
    proof {
        reveal_strlit(" - ");
        assert(" - "@ =~= seq![' ', '-', ' ']);
    }
    line
}

/// Builds the text that says where an error arose.
pub fn location(origin: &str, name: &str, method_name: &str) -> (r: String)
    ensures
        r@ == location_of(origin@, name@, method_name@),
{
    let mut place = String::from_str(origin);
    place.append("/");
    place.append(name);
    place.append("/");
    place.append(method_name);
    proof {
        reveal_strlit("/");
        assert("/"@ =~= seq!['/']);
    }
    place
}

/// Builds an error of the given kind. The payload holds the code and the
/// message as given, the place made of `origin`, `name` and `method_name`, and
/// the input snapshot as given.
pub fn api_error(
    kind: ApiErrorType,
    tag: &str,
    message: &str,
    origin: &str,
    name: &str,
    method_name: &str,
    inputs: Option<Vec<String>>,
) -> (r: ApiError)
    ensures
        r@ == error_of(
            kind,
            tag@,
            message@,
            location_of(origin@, name@, method_name@),
            inputs.deep_view(),
        ),
{
    let payload = ErrorMessage {
        tag: String::from_str(tag),
        message: String::from_str(message),
        location: location(origin, name, method_name),
        inputs,
    };
    match kind {
        ApiErrorType::Unexpected => ApiError::Unexpected(payload),
        ApiErrorType::Unauthorized => ApiError::Unauthorized(payload),
        ApiErrorType::NotFound => ApiError::NotFound(payload),
        ApiErrorType::BadRequest => ApiError::BadRequest(payload),
    }
}

} // verus!
