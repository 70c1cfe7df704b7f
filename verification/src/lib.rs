//! Batch operations on the objects of a Kubernetes cluster, chosen by kind
//! and by a name pattern: the verified decisions behind the `kubus` tool.

pub mod smooth_operator;
pub mod arg_matches;
pub mod args;
pub mod regex_match;
pub mod kube;
pub mod executor;
