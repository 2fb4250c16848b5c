//! The history of a calculator.
use vstd::prelude::*;

verus! {

/// The lines a calculator has shown, oldest first.
pub struct CalculatorHistory {
    history: Vec<String>,
}

impl CalculatorHistory {
    /// The recorded lines.
    pub closed spec fn lines(&self) -> Seq<String> {
        self.history@
    }

    /// An empty history.
    pub fn new() -> (r: CalculatorHistory)
        ensures
            r.lines().len() == 0,
    {
        CalculatorHistory { history: Vec::new() }
    }

    /// Appends one line.
    pub fn record(&mut self, entry: String)
        ensures
            final(self).lines() == old(self).lines().push(entry),
    {
        self.history.push(entry);
    }

    /// The recorded lines, oldest first.
    pub fn entries(&self) -> (r: &Vec<String>)
        ensures
            r@ == self.lines(),
    {
        &self.history
    }

    /// Forgets every line.
    pub fn clear_history(&mut self)
        ensures
            final(self).lines().len() == 0,
    {
        self.history.clear();
    }
}

} // verus!
