//! The job listings command: the text of the five newest job offers.

use vstd::prelude::*;
use vstd::string::*;
use crate::decimal::{decimal, parse_of_decimal, parse_unsigned, push_decimal};
use crate::text::{has_prefix, join, joined, shorten, shortened, views};

verus! {

/// A job offer as the job board lists it.
pub struct Job {
    pub company_name: String,
    pub title: String,
    pub description: String,
    pub remote: bool,
    pub tags: Vec<String>,
    pub url: String,
    pub job_types: Vec<String>,
    pub location: String,
    pub created_at: u64,
}

/// The plain text that `nanohtml2text::html2text` makes of some HTML.
pub uninterp spec fn html_text(html: Seq<char>) -> Seq<char>;

/// Calls `nanohtml2text::html2text`, which turns HTML into plain text without
/// reading anything but its argument. The contract claims only that; the text
/// itself is left to the name `html_text`.
#[verifier::external_body]
fn html_to_text(html: &str) -> (res: String)
    ensures
        res@ == html_text(html@),
{
    nanohtml2text::html2text(html)
}

/// How many offers the listing shows.
pub const JOBS_SHOWN: usize = 5;

/// The entry of the offer at 1-based `place`, given its description as plain
/// text: title, company, location, the description cut to 150 characters,
/// remote or not, tags, job types, a relative timestamp and a link.
pub open spec fn job_entry_text(place: nat, job: Job, description: Seq<char>) -> Seq<char> {
    let remote: Seq<char> = if job.remote { "yes"@ } else { "no"@ };
    "**"@ + decimal(place) + ". "@ + job.title@ + "**\n**company**: "@ + job.company_name@
        + "\n**location**: "@ + job.location@ + "\n**description**: "@ + shortened(description)
        + "\n**remote**: "@ + remote + "\n**tags**: "@ + joined(views(job.tags@), ", "@)
        + "\n**job types**: "@ + joined(views(job.job_types@), ", "@) + "\n**posted** <t:"@
        + decimal(job.created_at as nat) + ":R>\n[view job]("@ + job.url@ + ")\n\n"@
}

/// The entries of the first `n` offers, one after the other.
pub open spec fn listing_text(jobs: Seq<Job>, n: nat) -> Seq<char>
    decreases n,
{
    if n == 0 {
        Seq::empty()
    } else {
        listing_text(jobs, (n - 1) as nat) + job_entry_text(
            n,
            jobs[n - 1],
            html_text(jobs[n - 1].description@),
        )
    }
}

/// The entry of the offer at 1-based `place`, with its description already
/// turned into plain text.
pub fn job_entry(place: usize, job: &Job, description: &str) -> (res: String)
    ensures
        res@ == job_entry_text(place as nat, *job, description@),
{
    let mut s = String::from_str("**");
    push_decimal(&mut s, place as u64);
    s.append(". ");
    s.append(job.title.as_str());
    s.append("**\n**company**: ");
    s.append(job.company_name.as_str());
    s.append("\n**location**: ");
    s.append(job.location.as_str());
    s.append("\n**description**: ");
    let short = shorten(description);
    s.append(short.as_str());
    s.append("\n**remote**: ");
    if job.remote {
        s.append("yes");
    } else {
        s.append("no");
    }
    s.append("\n**tags**: ");
    let tags = join(job.tags.as_slice(), ", ");
    s.append(tags.as_str());
    s.append("\n**job types**: ");
    let types = join(job.job_types.as_slice(), ", ");
    s.append(types.as_str());
    s.append("\n**posted** <t:");
    push_decimal(&mut s, job.created_at);
    s.append(":R>\n[view job](");
    s.append(job.url.as_str());
    s.append(")\n\n");
    s
}

/// The text of the job listing: the entries of the first five offers.
pub fn job_listing(jobs: &[Job]) -> (res: String)
    ensures
        res@ == listing_text(
            jobs@,
            if jobs@.len() < JOBS_SHOWN {
                jobs@.len()
            } else {
                JOBS_SHOWN as nat
            },
        ),
{
    let n: usize = if jobs.len() < JOBS_SHOWN {
        jobs.len()
    } else {
        JOBS_SHOWN
    };
    let mut res = String::new();
    let mut i: usize = 0;
    while i < n
        invariant
            i <= n,
            n <= jobs@.len(),
            n <= JOBS_SHOWN,
            res@ == listing_text(jobs@, i as nat),
        decreases n - i,
    {
        let plain = html_to_text(jobs[i].description.as_str());
        let entry = job_entry(i + 1, &jobs[i], plain.as_str());
        res.append(entry.as_str());
        i = i + 1;
    }
    res
}


/// The listing is the offers' entries one after the other: the entry at
/// place `k` is made from the `k`-th offer alone, with that offer's own
/// description turned into text; the listing of the first `k` offers does not
/// depend on the offers after them.
pub proof fn listing_entries_follow_offers(jobs: Seq<Job>, others: Seq<Job>, k: nat)
    requires
        1 <= k <= jobs.len(),
    ensures
        listing_text(jobs, k) == listing_text(jobs, (k - 1) as nat) + job_entry_text(
            k,
            jobs[k - 1],
            html_text(jobs[k - 1].description@),
        ),
        k <= others.len() && jobs.take(k as int) == others.take(k as int) ==> listing_text(jobs, k)
            == listing_text(others, k),
    decreases k,
{
    if k <= others.len() && jobs.take(k as int) == others.take(k as int) {
        assert(jobs[k - 1] == jobs.take(k as int)[k - 1]);
        assert(others[k - 1] == others.take(k as int)[k - 1]);
        if k > 1 {
            assert(jobs.take((k - 1) as int) =~= jobs.take(k as int).take((k - 1) as int));
            assert(others.take((k - 1) as int) =~= others.take(k as int).take((k - 1) as int));
            listing_entries_follow_offers(jobs, others, (k - 1) as nat);
        }
    }
}


/// An offer's entry starts with its place (text reading back as the place)
/// and its title, gives its company and location, then its description cut
/// to 150 characters (the given text itself when it is no longer), then
/// `yes` for a remote offer and `no` otherwise.
pub proof fn job_entry_describes_its_offer(place: nat, job: Job, description: Seq<char>)
    ensures
        exists|t: Seq<char>|
            #[trigger] parse_unsigned(t, place) == Some(place) && has_prefix(
                job_entry_text(place, job, description),
                "**"@ + t + ". "@ + job.title@ + "**\n**company**: "@ + job.company_name@
                    + "\n**location**: "@ + job.location@ + "\n**description**: "@ + shortened(
                    description,
                ) + "\n**remote**: "@ + (if job.remote {
                    "yes"@
                } else {
                    "no"@
                }),
            ),
        description.len() <= 150 ==> shortened(description) == description,
{
    parse_of_decimal(place, place);
    let t = decimal(place);
    let remote: Seq<char> = if job.remote { "yes"@ } else { "no"@ };
    let head = "**"@ + t + ". "@ + job.title@ + "**\n**company**: "@ + job.company_name@
        + "\n**location**: "@ + job.location@ + "\n**description**: "@ + shortened(description)
        + "\n**remote**: "@ + remote;
    let after = "\n**tags**: "@ + joined(views(job.tags@), ", "@) + "\n**job types**: "@ + joined(
        views(job.job_types@),
        ", "@,
    ) + "\n**posted** <t:"@ + decimal(job.created_at as nat) + ":R>\n[view job]("@ + job.url@
        + ")\n\n"@;
    assert(job_entry_text(place, job, description) =~= head + after);
    assert((head + after).take(head.len() as int) =~= head);
}

} // verus!
