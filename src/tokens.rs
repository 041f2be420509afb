use vstd::prelude::*;

verus! {

/// The whitespace-separated words of a text, in order.
pub uninterp spec fn words_of(s: Seq<char>) -> Seq<Seq<char>>;

/// Relies on `str::split_whitespace`: the words of the text between runs
/// of Unicode whitespace, in order, each copied into a `String`.
#[verifier::external_body]
fn split_words(s: &str) -> (r: Vec<String>)
    ensures
        r@.map_values(|w: String| w@) == words_of(s@),
{
    s.split_whitespace().map(String::from).collect()
}

/// A token was required where the input had ended.
#[derive(Debug, PartialEq, Eq)]
pub struct UnexpectedEnd {
    /// What the caller was looking for.
    pub expected: String,
    /// How many tokens had been read.
    pub position: usize,
}

/// A cursor over the whitespace-separated tokens of a text.
pub struct TokenStream {
    tokens: Vec<String>,
    index: usize,
}

impl TokenStream {
    pub closed spec fn tokens(&self) -> Seq<Seq<char>> {
        self.tokens@.map_values(|w: String| w@)
    }

    /// How many tokens have been read.
    pub closed spec fn pos(&self) -> nat {
        self.index as nat
    }

    pub open spec fn wf(&self) -> bool {
        self.pos() <= self.tokens().len()
    }

    pub fn new(input: &str) -> (r: Self)
        ensures
            r.tokens() == words_of(input@),
            r.pos() == 0,
            r.wf(),
    {
        TokenStream { tokens: split_words(input), index: 0 }
    }

    /// The next token, if any, and the cursor moves past it.
    pub fn next(&mut self) -> (r: Option<String>)
        requires
            old(self).wf(),
        ensures
            final(self).wf(),
            final(self).tokens() == old(self).tokens(),
            old(self).pos() < old(self).tokens().len() ==> r is Some && r->0@ == old(
                self,
            ).tokens()[old(self).pos() as int] && final(self).pos() == old(self).pos() + 1,
            old(self).pos() >= old(self).tokens().len() ==> r is None && final(self).pos() == old(
                self,
            ).pos(),
    {
        if self.index < self.tokens.len() {
            let tok = self.tokens[self.index].clone();
            self.index = self.index + 1;
            Some(tok)
        } else {
            None
        }
    }

    /// The next token, or an error that names what was expected when the
    /// input has ended.
    pub fn expect(&mut self, context: &str) -> (r: Result<String, UnexpectedEnd>)
        requires
            old(self).wf(),
        ensures
            final(self).wf(),
            final(self).tokens() == old(self).tokens(),
            old(self).pos() < old(self).tokens().len() ==> r is Ok && r->Ok_0@ == old(
                self,
            ).tokens()[old(self).pos() as int] && final(self).pos() == old(self).pos() + 1,
            old(self).pos() >= old(self).tokens().len() ==> r is Err && r->Err_0.expected@
                == context@ && r->Err_0.position == old(self).pos() && final(self).pos() == old(
                self,
            ).pos(),
    {
        match self.next() {
            Some(tok) => Ok(tok),
            None => Err(UnexpectedEnd { expected: context.to_string(), position: self.index }),
        }
    }

    /// Number of tokens in the whole text.
    pub fn len(&self) -> (r: usize)
        ensures
            r == self.tokens().len(),
    {
        self.tokens.len()
    }

    /// The token at index `i`.
    pub fn get(&self, i: usize) -> (r: &String)
        requires
            i < self.tokens().len(),
        ensures
            r@ == self.tokens()[i as int],
    {
        &self.tokens[i]
    }

    pub fn current_pos(&self) -> (r: usize)
        ensures
            r == self.pos(),
    {
        self.index
    }
}

} // verus!
