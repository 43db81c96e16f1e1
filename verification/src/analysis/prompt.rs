//! The fixed analysis prompt.

use vstd::prelude::*;
use crate::ids::{hyphenated, id_to_string};
use crate::analysis::orchestrator::AnalysisScreenshot;
use crate::model::Platform;
use crate::text::{occurs_at, push_str};

verus! {

/// The instructions every analysis, repair and refinement prompt begins with.
pub const FIXED_ANALYSIS_INSTRUCTIONS: &'static str = "Analyze only visible design evidence.\nSeparate observations, cross-screenshot patterns, and recommendations.\nDo not copy or emit brand names, logos, original product copy, customer data, or proprietary assets.\nEvery pattern and recommendation must cite evidence IDs.\nUse exact values only when visually supported; otherwise describe a range or principle.\nReturn only JSON matching the supplied schema.";

/// The name a platform is written with (its `Debug` form).
pub open spec fn platform_name(p: Platform) -> Seq<char> {
    match p {
        Platform::Web => "Web"@,
        Platform::Desktop => "Desktop"@,
        Platform::Mobile => "Mobile"@,
        Platform::CrossPlatform => "CrossPlatform"@,
    }
}

pub fn platform_text(p: Platform) -> (s: &'static str)
    ensures
        s@ == platform_name(p),
{
    match p {
        Platform::Web => "Web",
        Platform::Desktop => "Desktop",
        Platform::Mobile => "Mobile",
        Platform::CrossPlatform => "CrossPlatform",
    }
}

/// The schema section appended to prompts when a schema travels with them.
pub open spec fn schema_section(schema: Option<Seq<char>>) -> Seq<char> {
    match schema {
        Some(s) => "\nThe supplied schema:\n"@ + s + "\n"@,
        None => Seq::empty(),
    }
}

pub open spec fn screenshot_line(id: u128, page_name: Seq<char>, scene: Seq<char>) -> Seq<char> {
    "  - id: "@ + hyphenated(id) + "; page_name: "@ + page_name + "; scene: "@ + scene + "\n"@
}

pub open spec fn screenshot_lines(shots: Seq<AnalysisScreenshot>) -> Seq<char>
    decreases shots.len(),
{
    if shots.len() == 0 {
        Seq::empty()
    } else {
        let s = shots.last();
        screenshot_lines(shots.drop_last()) + screenshot_line(s.id, s.page_name@, s.scene@)
    }
}

/// The analysis prompt: the fixed instructions, the project context (its
/// identifier, platform, target product type, and each screenshot's
/// identifier, page name and scene), then the schema when there is one.
pub open spec fn analysis_prompt_text(
    project_id: u128,
    platform: Platform,
    target_product_type: Seq<char>,
    shots: Seq<AnalysisScreenshot>,
    schema: Option<Seq<char>>,
) -> Seq<char> {
    FIXED_ANALYSIS_INSTRUCTIONS@ + "\n\nProject context:\n"@ + "- project_id: "@ + hyphenated(
        project_id,
    ) + "\n"@ + "- platform: "@ + platform_name(platform) + "\n"@ + "- target_product_type: "@
        + target_product_type + "\n"@ + "- screenshots:\n"@ + screenshot_lines(shots)
        + schema_section(schema)
}

proof fn lemma_lines_step(shots: Seq<AnalysisScreenshot>, i: int)
    requires
        0 <= i < shots.len(),
    ensures
        screenshot_lines(shots.take(i + 1)) == screenshot_lines(shots.take(i)) + screenshot_line(
            shots[i].id,
            shots[i].page_name@,
            shots[i].scene@,
        ),
{
    let t = shots.take(i + 1);
    assert(t.drop_last() =~= shots.take(i));
    assert(t.last() == shots[i]);
}

proof fn lemma_lines_prefix(shots: Seq<AnalysisScreenshot>, j: int)
    requires
        0 <= j <= shots.len(),
    ensures
        screenshot_lines(shots.take(j)).len() <= screenshot_lines(shots).len(),
        screenshot_lines(shots).subrange(0, screenshot_lines(shots.take(j)).len() as int)
            == screenshot_lines(shots.take(j)),
    decreases shots.len(),
{
    if j == shots.len() {
        assert(shots.take(j) =~= shots);
        assert(screenshot_lines(shots).subrange(0, screenshot_lines(shots).len() as int)
            =~= screenshot_lines(shots));
    } else {
        let init = shots.drop_last();
        lemma_lines_prefix(init, j);
        assert(init.take(j) =~= shots.take(j));
        let a = screenshot_lines(init);
        let b = screenshot_line(shots.last().id, shots.last().page_name@, shots.last().scene@);
        let p = screenshot_lines(shots.take(j));
        assert(screenshot_lines(shots) == a + b);
        assert((a + b).subrange(0, p.len() as int) =~= a.subrange(0, p.len() as int));
    }
}

/// The analysis prompt lists every selected screenshot on a line of its own,
/// `  - id: <id>; page_name: <page>; scene: <scene>`, one line per
/// screenshot, in the order the screenshots were given, each line directly
/// after the one before. The result gives the position of each line.
pub proof fn law_prompt_lists_every_screenshot_in_order(
    project_id: u128,
    platform: Platform,
    target_product_type: Seq<char>,
    shots: Seq<AnalysisScreenshot>,
    schema: Option<Seq<char>>,
) -> (pos: Seq<int>)
    ensures
        pos.len() == shots.len(),
        forall|i: int|
            0 <= i < shots.len() ==> occurs_at(
                analysis_prompt_text(project_id, platform, target_product_type, shots, schema),
                "  - id: "@ + hyphenated(#[trigger] shots[i].id) + "; page_name: "@
                    + shots[i].page_name@ + "; scene: "@ + shots[i].scene@ + "\n"@,
                pos[i],
            ),
        forall|i: int|
            0 <= i < shots.len() - 1 ==> #[trigger] pos[i + 1] == pos[i] + ("  - id: "@
                + hyphenated(shots[i].id) + "; page_name: "@ + shots[i].page_name@ + "; scene: "@
                + shots[i].scene@ + "\n"@).len(),
{
    let text = analysis_prompt_text(project_id, platform, target_product_type, shots, schema);
    let head = FIXED_ANALYSIS_INSTRUCTIONS@ + "\n\nProject context:\n"@ + "- project_id: "@
        + hyphenated(project_id) + "\n"@ + "- platform: "@ + platform_name(platform) + "\n"@
        + "- target_product_type: "@ + target_product_type + "\n"@ + "- screenshots:\n"@;
    let lines = screenshot_lines(shots);
    let tail = schema_section(schema);
    assert(text == head + lines + tail);
    let pos = Seq::new(
        shots.len(),
        |i: int| (head.len() + screenshot_lines(shots.take(i)).len()) as int,
    );
    assert forall|i: int| 0 <= i < shots.len() implies occurs_at(
        text,
        "  - id: "@ + hyphenated(#[trigger] shots[i].id) + "; page_name: "@ + shots[i].page_name@
            + "; scene: "@ + shots[i].scene@ + "\n"@,
        pos[i],
    ) by {
        let line = screenshot_line(shots[i].id, shots[i].page_name@, shots[i].scene@);
        let before = screenshot_lines(shots.take(i));
        lemma_lines_step(shots, i);
        lemma_lines_prefix(shots, i + 1);
        let upto = screenshot_lines(shots.take(i + 1));
        assert(upto == before + line);
        assert(lines.subrange(0, upto.len() as int) == upto);
        assert(lines.subrange(before.len() as int, upto.len() as int) =~= line) by {
            assert forall|k: int| 0 <= k < line.len() implies lines.subrange(
                before.len() as int,
                upto.len() as int,
            )[k] == line[k] by {
                assert(lines.subrange(0, upto.len() as int)[before.len() + k] == upto[before.len()
                    + k]);
            }
        }
        assert(text.subrange(pos[i], pos[i] + line.len()) =~= line) by {
            assert forall|k: int| 0 <= k < line.len() implies text.subrange(
                pos[i],
                pos[i] + line.len(),
            )[k] == line[k] by {
                assert(text[pos[i] + k] == (head + lines + tail)[head.len() + before.len() + k]);
                assert(lines.subrange(before.len() as int, upto.len() as int)[k] == lines[before.len()
                    + k]);
            }
        }
    }
    assert forall|i: int| 0 <= i < shots.len() - 1 implies #[trigger] pos[i + 1] == pos[i] + (
    "  - id: "@ + hyphenated(shots[i].id) + "; page_name: "@ + shots[i].page_name@ + "; scene: "@
        + shots[i].scene@ + "\n"@).len() by {
        lemma_lines_step(shots, i);
    }
    pos
}

/// Appends the schema section.
pub fn push_schema_section(prompt: &mut String, schema: Option<&str>)
    ensures
        final(prompt)@ == old(prompt)@ + schema_section(
            match schema {
                Some(s) => Some(s@),
                None => None,
            },
        ),
{
    match schema {
        Some(s) => {
            push_str(prompt, "\nThe supplied schema:\n");
            push_str(prompt, s);
            push_str(prompt, "\n");
        },
        None => {},
    }
}

/// Builds the analysis prompt.
pub fn build_analysis_prompt(
    project_id: u128,
    platform: Platform,
    target_product_type: &str,
    screenshots: &Vec<AnalysisScreenshot>,
    schema: Option<&str>,
) -> (prompt: String)
    ensures
        prompt@ == analysis_prompt_text(
            project_id,
            platform,
            target_product_type@,
            screenshots@,
            match schema {
                Some(s) => Some(s@),
                None => None,
            },
        ),
{
    let mut prompt = String::new();
    push_str(&mut prompt, FIXED_ANALYSIS_INSTRUCTIONS);
    push_str(&mut prompt, "\n\nProject context:\n");
    push_str(&mut prompt, "- project_id: ");
    let id = id_to_string(project_id);
    push_str(&mut prompt, id.as_str());
    push_str(&mut prompt, "\n");
    push_str(&mut prompt, "- platform: ");
    push_str(&mut prompt, platform_text(platform));
    push_str(&mut prompt, "\n");
    push_str(&mut prompt, "- target_product_type: ");
    push_str(&mut prompt, target_product_type);
    push_str(&mut prompt, "\n");
    push_str(&mut prompt, "- screenshots:\n");
    let ghost head = prompt@;
    let mut i: usize = 0;
    while i < screenshots.len()
        invariant
            i <= screenshots@.len(),
            prompt@ == head + screenshot_lines(screenshots@.take(i as int)),
        decreases screenshots@.len() - i,
    {
        let ghost t = screenshots@.take(i + 1);
        assert(t.drop_last() =~= screenshots@.take(i as int));
        let s = &screenshots[i];
        push_str(&mut prompt, "  - id: ");
        let sid = id_to_string(s.id);
        push_str(&mut prompt, sid.as_str());
        push_str(&mut prompt, "; page_name: ");
        push_str(&mut prompt, s.page_name.as_str());
        push_str(&mut prompt, "; scene: ");
        push_str(&mut prompt, s.scene.as_str());
        push_str(&mut prompt, "\n");
        i = i + 1;
        assert(prompt@ =~= head + screenshot_lines(screenshots@.take(i as int)));
    }
    assert(screenshots@.take(screenshots@.len() as int) =~= screenshots@);
    let ghost body = prompt@;
    push_schema_section(&mut prompt, schema);
    assert(prompt@ =~= analysis_prompt_text(
        project_id,
        platform,
        target_product_type@,
        screenshots@,
        match schema {
            Some(s) => Some(s@),
            None => None,
        },
    ));
    prompt
}

} // verus!
