use vstd::prelude::*;

verus! {

/// What a lint pass checks: the rules switched off, and the longest line allowed.
#[derive(Debug, Clone)]
pub struct LinterConfig {
    /// Identifiers of the rules that do not run.
    pub disabled_rules: Vec<String>,
    /// The widest a line may be, with a tab counted as four columns.
    pub max_line_length: usize,
}

/// The mathematical content of a `LinterConfig`.
pub struct ConfigView {
    pub disabled_rules: Seq<Seq<char>>,
    pub max_line_length: usize,
}

impl View for LinterConfig {
    type V = ConfigView;

    open spec fn view(&self) -> ConfigView {
        ConfigView {
            disabled_rules: self.disabled_rules@.map_values(|r: String| r@),
            max_line_length: self.max_line_length,
        }
    }
}

/// The rule `id` is switched off in `c`.
pub open spec fn is_disabled(c: ConfigView, id: Seq<char>) -> bool {
    c.disabled_rules.contains(id)
}

impl Default for LinterConfig {
    /// Every rule on, lines of up to 100 columns.
    fn default() -> (r: Self)
        ensures
            r.disabled_rules@.len() == 0,
            r.max_line_length == 100,
    {
        LinterConfig { disabled_rules: Vec::new(), max_line_length: 100 }
    }
}

impl LinterConfig {
    /// Whether the rule `id` is switched off.
    pub fn disables(&self, id: &str) -> (r: bool)
        ensures
            r == is_disabled(self@, id@),
    {
        let mut k: usize = 0;
        while k < self.disabled_rules.len()
            invariant
                k <= self.disabled_rules@.len(),
                forall|m: int| 0 <= m < k ==> #[trigger] self.disabled_rules@[m]@ != id@,
            decreases self.disabled_rules.len() - k,
        {
            if crate::text::str_eq(self.disabled_rules[k].as_str(), id) {
                assert(self@.disabled_rules[k as int] == id@);
                return true;
            }
            k = k + 1;
        }
        assert forall|m: int| 0 <= m < self@.disabled_rules.len() implies self@.disabled_rules[m]
            != id@ by {
            assert(self@.disabled_rules[m] == self.disabled_rules@[m]@);
        }
        false
    }
}

} // verus!
