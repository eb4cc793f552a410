use bbg::jobs::{job_entry, job_listing, Job};

fn job(title: &str, description: &str) -> Job {
    Job {
        company_name: "ACME".to_string(),
        title: title.to_string(),
        description: description.to_string(),
        remote: true,
        tags: vec!["rust".to_string(), "backend".to_string()],
        url: "https://example.test/job".to_string(),
        job_types: vec!["full time".to_string()],
        location: "Berlin".to_string(),
        created_at: 1700000000,
    }
}

#[test]
fn one_job_entry() {
    let text = job_listing(&[job("Engineer", "click <a href=\"test\">here</a>")]);
    assert_eq!(
        text,
        "**1. Engineer**\n**company**: ACME\n**location**: Berlin\n**description**: click here (test)\n**remote**: yes\n**tags**: rust, backend\n**job types**: full time\n**posted** <t:1700000000:R>\n[view job](https://example.test/job)\n\n"
    );
}

#[test]
fn long_descriptions_are_cut() {
    let long = "a".repeat(400);
    let mut j = job("Dev", &long);
    j.remote = false;
    j.tags = vec![];
    let text = job_listing(&[j]);
    assert!(text.contains(&format!("**description**: {}...\n", "a".repeat(150))));
    assert!(text.contains("**remote**: no\n**tags**: \n"));
}

#[test]
fn at_most_five_jobs() {
    let jobs: Vec<Job> = (0..8).map(|i| job(&format!("J{}", i), "d")).collect();
    let text = job_listing(&jobs);
    assert!(text.contains("**5. J4**"));
    assert!(!text.contains("**6."));
    assert_eq!(job_listing(&[]), "");
}

#[test]
fn entry_with_given_description() {
    let j = job("Tester", "ignored <b>html</b>");
    let text = job_entry(3, &j, "already plain");
    assert!(text.starts_with("**3. Tester**\n"));
    assert!(text.contains("**description**: already plain\n"));
}

#[test]
fn html_description_becomes_text() {
    let text = job_listing(&[job("T", "<p>two</p><p>paragraphs</p>")]);
    assert!(text.contains("**description**: two\r\n\r\nparagraphs\r\n\r\n\n"));
}
