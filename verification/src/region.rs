//! The service region a client talks to, and the endpoint host that belongs
//! to it.

use vstd::prelude::*;

use crate::text::{lower_chars, lower_str, str_eq};

verus! {

/// A service region, identifying the endpoint host of the storage service.
#[derive(Clone, Copy, Debug, PartialEq, Eq, Structural)]
pub enum Region {
    Beijing,
    Hangzhou,
    Shanghai,
    Shenzhen,
    Qingdao,
}

/// The endpoint host of a region.
pub open spec fn region_endpoint_chars(r: Region) -> Seq<char> {
    match r {
        Region::Beijing => "oss-cn-beijing.aliyuncs.com"@,
        Region::Hangzhou => "oss-cn-hangzhou.aliyuncs.com"@,
        Region::Shanghai => "oss-cn-shanghai.aliyuncs.com"@,
        Region::Shenzhen => "oss-cn-shenzhen.aliyuncs.com"@,
        Region::Qingdao => "oss-cn-qingdao.aliyuncs.com"@,
    }
}

/// A region name accepted by [`Region::parse`], lower-cased.
pub open spec fn region_of_chars(s: Seq<char>) -> Option<Region> {
    if s == "cn-beijing"@ || s == "beijing"@ {
        Some(Region::Beijing)
    } else if s == "cn-hangzhou"@ || s == "hangzhou"@ {
        Some(Region::Hangzhou)
    } else if s == "cn-shanghai"@ || s == "shanghai"@ {
        Some(Region::Shanghai)
    } else if s == "cn-shenzhen"@ || s == "shenzhen"@ {
        Some(Region::Shenzhen)
    } else if s == "cn-qingdao"@ || s == "qingdao"@ {
        Some(Region::Qingdao)
    } else {
        None
    }
}

impl Region {
    /// The endpoint host requests for this region are addressed to.
    pub fn endpoint(&self) -> (r: &'static str)
        ensures
            r@ == region_endpoint_chars(*self),
    {
        match self {
            Region::Beijing => "oss-cn-beijing.aliyuncs.com",
            Region::Hangzhou => "oss-cn-hangzhou.aliyuncs.com",
            Region::Shanghai => "oss-cn-shanghai.aliyuncs.com",
            Region::Shenzhen => "oss-cn-shenzhen.aliyuncs.com",
            Region::Qingdao => "oss-cn-qingdao.aliyuncs.com",
        }
    }

    /// Parses a region name, ignoring ASCII case; a name outside the known
    /// set is rejected.
    pub fn parse(s: &str) -> (r: Option<Region>)
        ensures
            r == region_of_chars(lower_chars(s@)),
    {
        let lowered = lower_str(s);
        let l = lowered.as_str();
        if str_eq(l, "cn-beijing") || str_eq(l, "beijing") {
            Some(Region::Beijing)
        } else if str_eq(l, "cn-hangzhou") || str_eq(l, "hangzhou") {
            Some(Region::Hangzhou)
        } else if str_eq(l, "cn-shanghai") || str_eq(l, "shanghai") {
            Some(Region::Shanghai)
        } else if str_eq(l, "cn-shenzhen") || str_eq(l, "shenzhen") {
            Some(Region::Shenzhen)
        } else if str_eq(l, "cn-qingdao") || str_eq(l, "qingdao") {
            Some(Region::Qingdao)
        } else {
            None
        }
    }
}

impl Default for Region {
    /// The default region is Hangzhou, the service's original home.
    fn default() -> (r: Region)
        ensures
            r == Region::Hangzhou,
    {
        Region::Hangzhou
    }
}

} // verus!
