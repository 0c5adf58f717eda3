//! Replies of the input component, and where a received request came from.
use vstd::prelude::*;
use crate::text::{decimal, decimal_string};

verus! {

/// The message of the reply to a bulk body whose action line `line` is not JSON.
pub fn invalid_operation_message(line: usize) -> (m: String)
    ensures
        m@ == "Not a valid \"operation\" in line "@ + decimal(line as nat),
{
    let mut m = String::from_str("Not a valid \"operation\" in line ");
    let n = decimal_string(line as u64);
    m.append(n.as_str());
    m
}

/// The reply to `_cat/templates/{template}`: `{template} [{template}-*] 1  `.
pub fn cat_templates_body(template: &str) -> (body: String)
    ensures
        body@ == template@ + " ["@ + template@ + "-*] 1  "@,
{
    let mut body = String::from_str(template);
    body.append(" [");
    body.append(template);
    body.append("-*] 1  ");
    body
}

/// Where a bulk request came from, as the logs record it: the IPv4 address
/// when the peer's address reads as one (else 0), and the peer's address as
/// text when it does not.
pub struct RemoteOrigin {
    pub ip: u32,
    pub address: String,
}

/// The origin of a request from the peer's address, if known, and what reading
/// that address as IPv4 gave.
pub fn remote_origin(remote: Option<&str>, as_ipv4: Option<u32>) -> (o: RemoteOrigin)
    ensures
        match remote {
            None => o.ip == 0 && o.address@ == ""@,
            Some(r) => match as_ipv4 {
                Some(ip) => o.ip == ip && o.address@ == ""@,
                None => o.ip == 0 && o.address@ == r@,
            },
        },
{
    match remote {
        None => RemoteOrigin { ip: 0, address: String::from_str("") },
        Some(r) => match as_ipv4 {
            Some(ip) => RemoteOrigin { ip, address: String::from_str("") },
            None => RemoteOrigin { ip: 0, address: String::from_str(r) },
        },
    }
}

/// The version part of `ClusterInfo`.
pub struct ClusterVersion {
    pub number: String,
    pub build_flavor: String,
    pub build_type: String,
    pub build_hash: String,
    pub build_date: String,
    pub build_snapshot: bool,
    pub lucene_version: String,
    pub minimum_wire_compatibility_version: String,
    pub minimum_index_compatibility_version: String,
}

/// The reply to `GET /`: the input component presents itself as an
/// Elasticsearch 7.8.0 cluster.
pub struct ClusterInfo {
    pub name: String,
    pub cluster_name: String,
    pub cluster_uuid: String,
    pub version: ClusterVersion,
    pub tagline: String,
}

/// The reply to `GET /`, built at `build_date`.
pub fn cluster_info(build_date: String) -> (r: ClusterInfo)
    ensures
        r.name@ == "usiem-elastic-input"@,
        r.cluster_name@ == "uSIEM"@,
        r.cluster_uuid@ == "Qpv8TMuHSS2qmiLdNKFxsg"@,
        r.version.number@ == "7.8.0"@,
        r.version.build_flavor@ == "default"@,
        r.version.build_type@ == "deb"@,
        r.version.build_hash@ == "757314695644ea9a1dc2fecd26d1a43856725e65"@,
        r.version.build_date@ == build_date@,
        !r.version.build_snapshot,
        r.version.lucene_version@ == "8.5.1"@,
        r.version.minimum_wire_compatibility_version@ == "6.8.0"@,
        r.version.minimum_index_compatibility_version@ == "6.0.0-beta1"@,
        r.tagline@ == "You Know, for Search"@,
{
    ClusterInfo {
        name: String::from_str("usiem-elastic-input"),
        cluster_name: String::from_str("uSIEM"),
        cluster_uuid: String::from_str("Qpv8TMuHSS2qmiLdNKFxsg"),
        version: ClusterVersion {
            number: String::from_str("7.8.0"),
            build_flavor: String::from_str("default"),
            build_type: String::from_str("deb"),
            build_hash: String::from_str("757314695644ea9a1dc2fecd26d1a43856725e65"),
            build_date,
            build_snapshot: false,
            lucene_version: String::from_str("8.5.1"),
            minimum_wire_compatibility_version: String::from_str("6.8.0"),
            minimum_index_compatibility_version: String::from_str("6.0.0-beta1"),
        },
        tagline: String::from_str("You Know, for Search"),
    }
}

/// The reply to `POST /_license`: an active basic license.
pub struct LicenseInfo {
    pub status: String,
    pub uid: String,
    pub license_type: String,
    pub issue_date: String,
    pub issue_date_in_millis: i64,
    pub max_nodes: u64,
    pub issued_to: String,
    pub issuer: String,
    pub start_date_in_millis: i64,
}

/// The reply to `POST /_license`, issued at `issue_date`.
pub fn license_info(issue_date: String) -> (r: LicenseInfo)
    ensures
        r.status@ == "active"@,
        r.uid@ == "f008ea32-5444-4bae-ae49-f05e36af8897"@,
        r.license_type@ == "basic"@,
        r.issue_date@ == issue_date@,
        r.issue_date_in_millis == 159335844,
        r.max_nodes == 1000,
        r.issued_to@ == "uSIEM"@,
        r.issuer@ == "elasticsearch"@,
        r.start_date_in_millis == -1,
{
    LicenseInfo {
        status: String::from_str("active"),
        uid: String::from_str("f008ea32-5444-4bae-ae49-f05e36af8897"),
        license_type: String::from_str("basic"),
        issue_date,
        issue_date_in_millis: 159335844,
        max_nodes: 1000,
        issued_to: String::from_str("uSIEM"),
        issuer: String::from_str("elasticsearch"),
        start_date_in_millis: -1,
    }
}

} // verus!
