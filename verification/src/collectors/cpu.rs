//! CPU identification and counts.

use vstd::prelude::*;

verus! {

/// CPU collector errors.
#[derive(Debug, Clone, PartialEq)]
pub enum CpuCollectorError {
    InitError(String),
    CollectionError(String),
}

/// The text of an error, as it is reported.
pub open spec fn cpu_error_text(e: CpuCollectorError) -> Seq<char> {
    match e {
        CpuCollectorError::InitError(m) => "Failed to initialize CPU collector: "@ + m@,
        CpuCollectorError::CollectionError(m) => "Failed to collect CPU metrics: "@ + m@,
    }
}

impl CpuCollectorError {
    /// The error's message.
    pub fn message(&self) -> (r: String)
        ensures
            r@ == cpu_error_text(*self),
    {
        let (prefix, m) = match self {
            CpuCollectorError::InitError(m) => ("Failed to initialize CPU collector: ", m),
            CpuCollectorError::CollectionError(m) => ("Failed to collect CPU metrics: ", m),
        };
        let mut r = String::from_str(prefix);
        r.append(m.as_str());
        r
    }
}

/// How long a collected CPU result is reused, in ms.
pub const RESULT_TTL_MS: u64 = 500;

/// How long a CPU temperature reading is reused, in ms.
pub const TEMPERATURE_TTL_MS: u64 = 2000;

/// The CPU name and vendor, read once from the first CPU and then kept.
#[derive(Debug, Clone, PartialEq)]
pub struct CpuIdentity {
    pub name: Option<String>,
    pub vendor: Option<String>,
}

/// A brand or vendor text, or the fallback when it is empty.
pub open spec fn or_fallback(s: Seq<char>, fallback: Seq<char>) -> Seq<char> {
    if s.len() == 0 {
        fallback
    } else {
        s
    }
}

impl CpuIdentity {
    /// Nothing known yet.
    pub fn new() -> (r: Self)
        ensures
            r.name is None,
            r.vendor is None,
    {
        CpuIdentity { name: None, vendor: None }
    }

    /// The name and vendor to report. While either is unknown and a first CPU
    /// (brand, vendor id) is given, both are taken from it ("Unknown CPU" for
    /// an empty brand, "Unknown" for an empty vendor) and kept. An unknown name
    /// is reported as "Unknown CPU", an unknown vendor as "Unknown".
    pub fn resolve(&mut self, first_cpu: Option<(&str, &str)>) -> (r: (String, String))
        ensures
            ({
                let unknown = old(self).name is None || old(self).vendor is None;
                &&& first_cpu matches Some(fc) ==> (unknown ==> crate::json::opt_view(
                    final(self).name,
                ) == Some(or_fallback(fc.0@, "Unknown CPU"@)) && crate::json::opt_view(
                    final(self).vendor,
                ) == Some(or_fallback(fc.1@, "Unknown"@)))
                &&& !(unknown && first_cpu is Some) ==> *final(self) == *old(self)
            }),
            r.0@ == match final(self).name {
                Some(n) => n@,
                None => "Unknown CPU"@,
            },
            r.1@ == match final(self).vendor {
                Some(v) => v@,
                None => "Unknown"@,
            },
    {
        if self.name.is_none() || self.vendor.is_none() {
            match first_cpu {
                Some((brand, vendor)) => {
                    self.name = Some(
                        if brand.is_empty() {
                            String::from_str("Unknown CPU")
                        } else {
                            String::from_str(brand)
                        },
                    );
                    self.vendor = Some(
                        if vendor.is_empty() {
                            String::from_str("Unknown")
                        } else {
                            String::from_str(vendor)
                        },
                    );
                },
                None => {},
            }
        }
        let name = match &self.name {
            Some(n) => n.clone(),
            None => String::from_str("Unknown CPU"),
        };
        let vendor = match &self.vendor {
            Some(v) => v.clone(),
            None => String::from_str("Unknown"),
        };
        (name, vendor)
    }
}

/// The number of logical CPUs, truncated to 32 bits.
pub fn thread_count(cpus: usize) -> (r: u32)
    ensures
        r == cpus as u32,
{
    cpus as u32
}

/// The number of physical cores: as reported, or half the threads when not
/// reported; truncated to 32 bits.
pub fn core_count(physical: Option<usize>, threads: u32) -> (r: u32)
    ensures
        r == (match physical {
            Some(p) => p,
            None => (threads / 2) as usize,
        }) as u32,
{
    let n: usize = match physical {
        Some(p) => p,
        None => (threads / 2) as usize,
    };
    n as u32
}

/// Per-core frequencies in MHz, each truncated to 32 bits.
pub fn core_frequencies(raw: &[u64]) -> (r: Vec<u32>)
    ensures
        r@.len() == raw@.len(),
        forall|i: int| 0 <= i < raw@.len() ==> r@[i] == raw@[i] as u32,
{
    let mut r: Vec<u32> = Vec::new();
    let mut i: usize = 0;
    while i < raw.len()
        invariant
            i <= raw@.len(),
            r@.len() == i,
            forall|j: int| 0 <= j < i ==> r@[j] == raw@[j] as u32,
        decreases raw@.len() - i,
    {
        r.push(raw[i] as u32);
        i = i + 1;
    }
    r
}

/// The base clock reported: the highest per-core frequency, if any.
pub fn base_clock(frequencies: &[u32]) -> (r: Option<u32>)
    ensures
        match r {
            Some(m) => (exists|i: int| 0 <= i < frequencies@.len() && frequencies@[i] == m) && (
            forall|i: int| 0 <= i < frequencies@.len() ==> frequencies@[i] <= m),
            None => frequencies@.len() == 0,
        },
{
    if frequencies.len() == 0 {
        return None;
    }
    let mut m = frequencies[0];
    let mut i: usize = 1;
    while i < frequencies.len()
        invariant
            1 <= i <= frequencies@.len(),
            exists|k: int| 0 <= k < i && frequencies@[k] == m,
            forall|k: int| 0 <= k < i ==> frequencies@[k] <= m,
        decreases frequencies@.len() - i,
    {
        if frequencies[i] > m {
            m = frequencies[i];
        }
        i = i + 1;
    }
    Some(m)
}

} // verus!
