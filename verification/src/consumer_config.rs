use vstd::prelude::*;

verus! {

/// The settings of a consumer, by value.
pub struct ConsumerConfigView {
    pub topic_name: Seq<char>,
    pub group: Seq<char>,
    pub fetch_min_bytes: i32,
    pub fetch_max_wait_ms: i32,
}

/// What a consumer reads and how it fetches.
pub struct ConsumerConfig {
    topic_name: String,
    group: String,
    fetch_min_bytes: i32,
    fetch_max_wait_ms: i32,
}

impl View for ConsumerConfig {
    type V = ConsumerConfigView;

    closed spec fn view(&self) -> ConsumerConfigView {
        ConsumerConfigView {
            topic_name: self.topic_name@,
            group: self.group@,
            fetch_min_bytes: self.fetch_min_bytes,
            fetch_max_wait_ms: self.fetch_max_wait_ms,
        }
    }
}

impl Default for ConsumerConfig {
    fn default() -> (c: Self)
        ensures
            c@ == (ConsumerConfigView {
                topic_name: Seq::empty(),
                group: Seq::empty(),
                fetch_min_bytes: 0,
                fetch_max_wait_ms: 0,
            }),
    {
        ConsumerConfig {
            topic_name: String::new(),
            group: String::new(),
            fetch_min_bytes: 0,
            fetch_max_wait_ms: 0,
        }
    }
}

impl ConsumerConfig {
    /// A consumer of the given topic in the group "default_group", fetching from one byte
    /// on and waiting at most 500 ms for a fetch.
    pub fn consume_from_topic(topic_name: String) -> (c: Self)
        ensures
            c@ == (ConsumerConfigView {
                topic_name: topic_name@,
                group: "default_group"@,
                fetch_min_bytes: 1,
                fetch_max_wait_ms: 500,
            }),
    {
        Self {
            topic_name,
            group: "default_group".to_owned(),
            fetch_min_bytes: 1,
            fetch_max_wait_ms: 500,
        }
    }

    /// The same settings in another consumer group.
    pub fn with_group(self, group: &str) -> (c: Self)
        ensures
            c@ == (ConsumerConfigView { group: group@, ..self@ }),
    {
        let mut this = self;
        this.group = group.to_owned();
        this
    }

    /// The same settings with another minimum fetch size.
    pub fn with_fetch_min_bytes(self, fetch_min_bytes: i32) -> (c: Self)
        ensures
            c@ == (ConsumerConfigView { fetch_min_bytes, ..self@ }),
    {
        let mut this = self;
        this.fetch_min_bytes = fetch_min_bytes;
        this
    }

    /// The same settings with another maximum fetch wait.
    pub fn with_fetch_max_wait_ms(self, fetch_max_wait_ms: i32) -> (c: Self)
        ensures
            c@ == (ConsumerConfigView { fetch_max_wait_ms, ..self@ }),
    {
        let mut this = self;
        this.fetch_max_wait_ms = fetch_max_wait_ms;
        this
    }

    pub fn topic_name(&self) -> (r: &str)
        ensures
            r@ == self@.topic_name,
    {
        self.topic_name.as_str()
    }

    pub fn group(&self) -> (r: &str)
        ensures
            r@ == self@.group,
    {
        self.group.as_str()
    }

    pub fn fetch_min_bytes(&self) -> (r: i32)
        ensures
            r == self@.fetch_min_bytes,
    {
        self.fetch_min_bytes
    }

    pub fn fetch_max_wait_ms(&self) -> (r: i32)
        ensures
            r == self@.fetch_max_wait_ms,
    {
        self.fetch_max_wait_ms
    }

    /// A copy of these settings.
    pub fn duplicate(&self) -> (c: Self)
        ensures
            c@ == self@,
    {
        ConsumerConfig {
            topic_name: self.topic_name.clone(),
            group: self.group.clone(),
            fetch_min_bytes: self.fetch_min_bytes,
            fetch_max_wait_ms: self.fetch_max_wait_ms,
        }
    }
}

} // verus!
