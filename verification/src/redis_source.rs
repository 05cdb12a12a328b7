use vstd::prelude::*;

verus! {

/// The configuration of a Redis source: the address it listens on.
#[derive(Debug, Clone)]
pub struct RedisConfig {
    pub listen_addr: String,
}

impl View for RedisConfig {
    type V = Seq<char>;

    open spec fn view(&self) -> Seq<char> {
        self.listen_addr@
    }
}

impl PartialEq for RedisConfig {
    fn eq(&self, other: &Self) -> (r: bool) {
        self.listen_addr == other.listen_addr
    }
}

impl vstd::std_specs::cmp::PartialEqSpecImpl for RedisConfig {
    open spec fn obeys_eq_spec() -> bool {
        true
    }

    open spec fn eq_spec(&self, other: &RedisConfig) -> bool {
        self@ == other@
    }
}

} // verus!
