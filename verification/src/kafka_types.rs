use vstd::prelude::*;

verus! {

/// A record to produce.
pub struct Record<'a> {
    pub payload: &'a str,
    pub topic_name: &'a str,
    pub key: Option<String>,
}

#[derive(Debug, PartialEq, Eq, Structural)]
pub struct ListOffsetsResultInfo {
    pub offset: i32,
}

pub struct NewTopic<'a> {
    pub name: &'a str,
    pub num_partitions: i32,
    pub replication_factor: i16,
}

pub struct NewPartition<'a> {
    pub topic_name: &'a str,
    pub new_partition_count: i32,
}

/// A partition of a topic.
#[derive(Clone, Hash, Debug)]
pub struct TopicPartition {
    pub topic_name: String,
    pub partition: i32,
}

impl View for TopicPartition {
    type V = (Seq<char>, i32);

    open spec fn view(&self) -> (Seq<char>, i32) {
        (self.topic_name@, self.partition)
    }
}

impl PartialEq for TopicPartition {
    fn eq(&self, other: &Self) -> (r: bool) {
        self.topic_name == other.topic_name && self.partition == other.partition
    }
}

impl Eq for TopicPartition {

}

impl vstd::std_specs::cmp::PartialEqSpecImpl for TopicPartition {
    open spec fn obeys_eq_spec() -> bool {
        true
    }

    open spec fn eq_spec(&self, other: &TopicPartition) -> bool {
        self@ == other@
    }
}

pub enum ResourceSpecifier<'a> {
    Topic(&'a str),
}

pub struct AlterConfig<'a> {
    pub specifier: ResourceSpecifier<'a>,
    pub entries: &'a [ConfigEntry],
}

pub struct ConfigEntry {
    pub key: String,
    pub value: String,
}

pub struct Acl {
    pub resource_type: ResourceType,
    pub resource_name: String,
    pub resource_pattern_type: ResourcePatternType,
    pub principal: String,
    pub host: String,
    pub operation: AclOperation,
    pub permission_type: AclPermissionType,
}

/// The kind of resource an ACL applies to, as Kafka's ResourceType names it.
pub enum ResourceType {
    Cluster,
    DelegationToken,
    Group,
    Topic,
    TransactionalId,
    User,
}

/// How an ACL's resource name is matched, as Kafka's PatternType names it.
pub enum ResourcePatternType {
    Literal,
    Prefixed,
}

/// The operation an ACL governs, as Kafka's AclOperation names it.
pub enum AclOperation {
    All,
    Alter,
    AlterConfigs,
    ClusterAction,
    Create,
    CreateTokens,
    Delete,
    Describe,
    DescribeConfigs,
    DescribeTokens,
    Read,
    Write,
}

/// Whether an ACL allows or denies, as Kafka's AclPermissionType names it.
pub enum AclPermissionType {
    Allow,
    Deny,
}

/// The description of a topic. Callers only learn whether describing succeeded, so it
/// carries nothing.
#[derive(Debug)]
pub struct TopicDescription {}

pub enum OffsetSpec {
    Earliest,
    Latest,
}

} // verus!
