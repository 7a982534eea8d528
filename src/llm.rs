//! The text-completion capability that scripts may query.

use vstd::prelude::*;
use vstd::string::StringExecFns;

verus! {

/// The view of a service's answer.
pub open spec fn answer_view(r: Result<String, String>) -> Result<Seq<char>, Seq<char>> {
    match r {
        Ok(t) => Ok(t@),
        Err(m) => Err(m@),
    }
}

/// A text-completion service: a query in, a completion or an error message out.
pub trait LLM {
    /// Whether the service, in this state, may give `answer` to `query`.
    spec fn may_answer(&self, query: Seq<char>, answer: Result<Seq<char>, Seq<char>>) -> bool;

    fn query(&mut self, query: &str) -> (r: Result<String, String>)
        ensures
            old(self).may_answer(query@, answer_view(r)),
    ;
}

/// A stand-in used when no service is configured: every query fails.
pub struct InvalidLLM {
    error_message: String,
}

impl InvalidLLM {
    pub fn create_with_error_message(error_message: &str) -> (r: InvalidLLM)
        ensures
            r.message() == error_message@,
    {
        InvalidLLM { error_message: error_message.to_string() }
    }

    /// Why queries fail.
    pub closed spec fn message(&self) -> Seq<char> {
        self.error_message@
    }

    /// The error that every query gets.
    pub fn failure(&self) -> (r: String)
        ensures
            r@ == "Unable to access LLM: "@ + self.message(),
    {
        let mut r = String::from_str("Unable to access LLM: ");
        r.append(self.error_message.as_str());
        r
    }
}

impl LLM for InvalidLLM {
    /// Every query gets the same error.
    open spec fn may_answer(&self, query: Seq<char>, answer: Result<Seq<char>, Seq<char>>) -> bool {
        answer == Err::<Seq<char>, Seq<char>>("Unable to access LLM: "@ + self.message())
    }

    fn query(&mut self, query: &str) -> (r: Result<String, String>)
        ensures
            r is Err && r->Err_0@ == "Unable to access LLM: "@ + old(self).message(),
            final(self).message() == old(self).message(),
    {
        Err(self.failure())
    }
}

} // verus!
