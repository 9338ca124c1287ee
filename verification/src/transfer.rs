use vstd::prelude::*;

verus! {

/// One money transfer asked of the transfer function.
pub struct TransferRequest {
    /// Account the amount is taken from.
    pub payer_id: u32,
    /// Account the amount is paid to.
    pub payee_id: u32,
    /// Amount moved.
    pub amount: i32,
}

/// The answer of the transfer function to one request.
pub struct TransferResponse {
    /// Payer's balance after the transfer, when it went through.
    pub balance: Option<i64>,
    /// Error message, when the transfer failed inside the function.
    pub error: Option<String>,
    /// Database error code that came with the error, if any.
    pub error_code: Option<String>,
    /// Time the function spent, in milliseconds.
    pub duration: Option<u64>,
    /// How many times the function retried its transaction.
    pub retries: Option<u32>,
}

/// The outcome of one invocation of the transfer function.
pub enum Invocation {
    /// The function ran and answered.
    Answered(TransferResponse),
    /// The function could not be invoked; the text of the error.
    Failed(String),
}

/// The answer of the transfer function, as mathematical values.
pub struct ResponseView {
    pub balance: Option<i64>,
    pub error: Option<Seq<char>>,
    pub error_code: Option<Seq<char>>,
    pub duration: Option<u64>,
    pub retries: Option<u32>,
}

/// The outcome of one invocation, as mathematical values.
pub enum InvocationView {
    Answered(ResponseView),
    Failed(Seq<char>),
}

/// The characters of an optional text.
pub open spec fn text_view(t: Option<String>) -> Option<Seq<char>> {
    match t {
        Some(s) => Some(s@),
        None => None,
    }
}

impl View for TransferResponse {
    type V = ResponseView;

    open spec fn view(&self) -> ResponseView {
        ResponseView {
            balance: self.balance,
            error: text_view(self.error),
            error_code: text_view(self.error_code),
            duration: self.duration,
            retries: self.retries,
        }
    }
}

impl View for Invocation {
    type V = InvocationView;

    open spec fn view(&self) -> InvocationView {
        match self {
            Invocation::Answered(r) => InvocationView::Answered(r@),
            Invocation::Failed(m) => InvocationView::Failed(m@),
        }
    }
}

} // verus!
