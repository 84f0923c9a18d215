//! What holds of the tools that look at the machine: its shells, its programs, and images.

use vstd::prelude::*;

use crate::json;
use crate::message;
use crate::message::MessageImage;
use crate::request_laws;
use crate::text;
use crate::text_laws;
use crate::tools::analyze_images_tool;
use crate::tools::analyze_images_tool::{AnalysisEvent, ImageFormat, OutputFormat};
use crate::tools::detect_binaries_tool;
use crate::tools::detect_binaries_tool::DetectBinariesSettings;
use crate::tools::enhanced_terminal_tool;
use crate::tools::enhanced_terminal_tool::Root;
use crate::tools::laws;
use crate::tools::shell_detector_tool;

verus! {

// ---------------------------------------------------------------------------
// The terminal
// ---------------------------------------------------------------------------

/// The root that a name stands for is the first one with it.
pub proof fn roots_are_found_by_name(roots: Seq<Root>, name: Seq<char>)
    ensures
        match enhanced_terminal_tool::root_named(roots, name) {
            Some(i) => 0 <= i < roots.len() && roots[i].name@ == name && forall|k: int|
                0 <= k < i ==> (#[trigger] roots[k]).name@ != name,
            None => forall|k: int| 0 <= k < roots.len() ==> (#[trigger] roots[k]).name@ != name,
        },
    decreases roots.len(),
{
    if roots.len() > 0 {
        let less = roots.drop_last();
        roots_are_found_by_name(less, name);
        assert forall|k: int| 0 <= k < less.len() implies less[k] == #[trigger] roots[k] by {
        }
    }
}

/// What is found is the first of the places that exists; nothing is found where none does.
pub proof fn the_first_place_that_exists_is_taken(
    places: Seq<Seq<char>>,
    existing: Seq<Seq<char>>,
    shell: Seq<char>,
)
    ensures
        (forall|i: int| 0 <= i < places.len() ==> !existing.contains(#[trigger] places[i]))
            ==> enhanced_terminal_tool::first_existing(places, existing) is None
            && enhanced_terminal_tool::shell_path(shell, places, existing) == shell,
        forall|i: int|
            {
                &&& 0 <= i < places.len()
                &&& existing.contains(#[trigger] places[i])
                &&& forall|k: int| 0 <= k < i ==> !existing.contains(#[trigger] places[k])
            } ==> enhanced_terminal_tool::first_existing(places, existing) == Some(places[i])
                && enhanced_terminal_tool::shell_path(shell, places, existing) == places[i],
    decreases places.len(),
{
    if places.len() > 0 {
        let rest = places.drop_first();
        the_first_place_that_exists_is_taken(rest, existing, shell);
        assert forall|i: int| 0 <= i < rest.len() implies rest[i] == #[trigger] places[i + 1] by {
        }
        if forall|i: int| 0 <= i < places.len() ==> !existing.contains(#[trigger] places[i]) {
            assert(!existing.contains(places[0]));
            assert forall|i: int| 0 <= i < rest.len() implies !existing.contains(
                #[trigger] rest[i],
            ) by {
                assert(!existing.contains(places[i + 1]));
            }
        }
        assert forall|i: int|
            {
                &&& 0 <= i < places.len()
                &&& existing.contains(#[trigger] places[i])
                &&& forall|k: int| 0 <= k < i ==> !existing.contains(#[trigger] places[k])
            } implies enhanced_terminal_tool::first_existing(places, existing) == Some(places[i])
            && enhanced_terminal_tool::shell_path(shell, places, existing) == places[i] by {
            if i > 0 {
                assert(!existing.contains(places[0]));
                assert(rest[i - 1] == places[i]);
                assert forall|k: int| 0 <= k < i - 1 implies !existing.contains(
                    #[trigger] rest[k],
                ) by {
                    assert(!existing.contains(places[k + 1]));
                }
            }
        }
    }
}

/// A relative path that leads upwards is looked for nowhere; an absolute one only where it leads; and
/// one that stays inside below each root, in order.
pub proof fn paths_are_looked_for_below_the_roots(cwd: Seq<char>, roots: Seq<Root>)
    requires
        cwd.len() > 0,
        cwd != "."@,
    ensures
        ({
            let places = enhanced_terminal_tool::looked_at(cwd, roots);
            let named = exists|i: int| 0 <= i < roots.len() && (#[trigger] roots[i]).name@ == cwd;
            &&& cwd[0] == '/' ==> places == seq![cwd]
            &&& cwd[0] != '/' && text::split(cwd, '/').contains(".."@) ==> places.len() == 0
            &&& cwd[0] != '/' && !named && !text::split(cwd, '/').contains(".."@) ==> {
                &&& places.len() == roots.len()
                &&& forall|i: int|
                    0 <= i < roots.len() ==> #[trigger] places[i] == crate::paths::joined(
                        roots[i].path@,
                        cwd,
                    )
            }
        }),
{
    reveal_strlit("/");
    roots_are_found_by_name(roots, cwd);
    let start = cwd.subrange(0, 0 + "/"@.len() as int);
    if cwd[0] == '/' {
        assert(start =~= "/"@);
    } else if text::starts_with(cwd, "/"@) {
        assert(start[0] == cwd[0]);
    }
}

/// A command that is handed to a shell is read by it as the command itself, behind the word that asks
/// for the rights of the administrator, where it is to have them.
pub proof fn shells_read_the_command(command: Seq<char>, use_sudo: bool, shell: Seq<char>)
    ensures
        ({
            let whole = if use_sudo {
                "sudo -S "@ + command
            } else {
                command
            };
            &&& enhanced_terminal_tool::command_line(command, use_sudo, None) == whole
            &&& exists|quoted: Seq<char>|
                {
                    &&& enhanced_terminal_tool::command_line(command, use_sudo, Some(shell)) == shell
                        + " -c '"@ + #[trigger] (quoted + "'"@)
                    &&& enhanced_terminal_tool::unquoted(quoted + "'"@, true) == whole
                }
        }),
{
    let whole = if use_sudo {
        "sudo -S "@ + command
    } else {
        command
    };
    let quoted = text::substitute(whole, '\'', "'\\''"@);
    enhanced_terminal_tool::quoting_is_undone(whole);
    let line = enhanced_terminal_tool::command_line(command, use_sudo, Some(shell));
    assert(line =~= shell + " -c '"@ + (quoted + "'"@));
}

/// What stands before all that is said of a command with the rights of the administrator.
pub open spec fn rights_mark(used_sudo: bool) -> Seq<char> {
    if used_sudo {
        "[SUDO] "@
    } else {
        Seq::empty()
    }
}

/// What is said of a command that has ended holds what it wrote, without the blanks around it; and says
/// whether it succeeded, failed under a number, or was interrupted.
pub proof fn what_a_command_wrote_is_shown(
    output: Seq<char>,
    truncated: bool,
    command: Seq<char>,
    exit_code: Option<u32>,
    used_sudo: bool,
)
    ensures
        ({
            let said = enhanced_terminal_tool::outcome(
                output,
                truncated,
                command,
                exit_code,
                used_sudo,
            );
            let prefix = rights_mark(used_sudo);
            &&& text::trim(output).len() > 0 ==> request_laws::has_part(said, text::trim(output))
            &&& exit_code == Some(0u32) ==> exists|b: Seq<char>|
                said == #[trigger] (prefix + "Command executed successfully."@ + b)
            &&& (exit_code is Some && exit_code->0 != 0) ==> exists|b: Seq<char>|
                said == #[trigger] (prefix + "Command \""@ + command + "\" failed with exit code "@
                    + text::decimal(exit_code->0 as nat) + "."@ + b)
            &&& exit_code is None ==> exists|b: Seq<char>|
                said == #[trigger] (prefix
                    + "Command failed or was interrupted.\nPartial output captured:\n\n"@ + b)
        }),
{
    let said = enhanced_terminal_tool::outcome(output, truncated, command, exit_code, used_sudo);
    let prefix = rights_mark(used_sudo);
    let shown = enhanced_terminal_tool::shown_output(output, truncated);
    shown_output_holds(output, truncated);
    let none = Seq::<char>::empty();
    let rest = if text::trim(output).len() == 0 {
        Seq::<char>::empty()
    } else {
        "\n\n"@ + shown
    };
    match exit_code {
        Some(code) => {
            let head = if code == 0 {
                prefix + "Command executed successfully."@
            } else {
                prefix + "Command \""@ + command + "\" failed with exit code "@ + text::decimal(
                    code as nat,
                ) + "."@
            };
            assert(said == head + rest);
            if text::trim(output).len() > 0 {
                assert(said =~= (head + "\n\n"@) + shown + none);
                request_laws::part_of_part(said, head + "\n\n"@, shown, none, text::trim(output));
            }
        },
        None => {
            let head = prefix + "Command failed or was interrupted.\nPartial output captured:\n\n"@;
            assert(said == head + shown);
            assert(said =~= head + shown + none);
            request_laws::part_of_part(said, head, shown, none, text::trim(output));
        },
    }
}

proof fn shown_output_holds(output: Seq<char>, truncated: bool)
    ensures
        request_laws::has_part(
            enhanced_terminal_tool::shown_output(output, truncated),
            text::trim(output),
        ),
{
    let block = "```\n"@ + text::trim(output) + "\n```"@;
    let shown = enhanced_terminal_tool::shown_output(output, truncated);
    if truncated {
        let head = "Command output too long. The first "@ + text::decimal(
            vstd::utf8::encode_utf8(block).len(),
        ) + " bytes:\n\n"@;
        assert(shown =~= (head + "```\n"@) + text::trim(output) + "\n```"@);
    } else {
        assert(shown == "```\n"@ + text::trim(output) + "\n```"@);
    }
}

// ---------------------------------------------------------------------------
// Shells
// ---------------------------------------------------------------------------

/// Of each name for which some path exists a shell is there.
pub proof fn every_shell_is_found(
    shells: Seq<shell_detector_tool::ShellView>,
    existing: Seq<Seq<char>>,
    i: int,
)
    requires
        0 <= i < shells.len(),
        existing.contains(shells[i].path),
    ensures
        shell_detector_tool::has_name(
            shell_detector_tool::present(shells, existing),
            shells[i].name,
        ),
    decreases shells.len(),
{
    let less = shells.drop_last();
    let before = shell_detector_tool::present(less, existing);
    let now = shell_detector_tool::present(shells, existing);
    let name = shells[i].name;
    if i < less.len() {
        every_shell_is_found(less, existing, i);
    }
    if shell_detector_tool::has_name(before, name) {
        let k = choose|k: int| 0 <= k < before.len() && (#[trigger] before[k]).name == name;
        assert(now[k] == before[k]);
    } else {
        assert(now[before.len() as int] == shells.last());
    }
}

/// A shell that is there is the first of its name whose path exists.
pub proof fn found_shells_come_first(
    shells: Seq<shell_detector_tool::ShellView>,
    existing: Seq<Seq<char>>,
    k: int,
) -> (first: int)
    requires
        0 <= k < shell_detector_tool::present(shells, existing).len(),
    ensures
        0 <= first < shells.len(),
        shells[first] == shell_detector_tool::present(shells, existing)[k],
        existing.contains(shells[first].path),
        forall|j: int|
            0 <= j < first && existing.contains((#[trigger] shells[j]).path) ==> shells[j].name
                != shells[first].name,
    decreases shells.len(),
{
    let less = shells.drop_last();
    let before = shell_detector_tool::present(less, existing);
    if k < before.len() {
        let first = found_shells_come_first(less, existing, k);
        assert forall|j: int| 0 <= j < first && existing.contains(
            (#[trigger] shells[j]).path,
        ) implies shells[j].name != shells[first].name by {
            assert(less[j] == shells[j]);
        }
        first
    } else {
        let first = shells.len() - 1;
        assert forall|j: int| 0 <= j < first && existing.contains(
            (#[trigger] shells[j]).path,
        ) implies shells[j].name != shells[first].name by {
            assert(less[j] == shells[j]);
            every_shell_is_found(less, existing, j);
        }
        first
    }
}

/// The shell of the user is always there, under the last name of its path, and the others with it.
pub proof fn the_own_shell_is_there(existing: Seq<Seq<char>>, own: Seq<char>)
    ensures
        ({
            let found = shell_detector_tool::present(
                shell_detector_tool::common_shells(),
                existing,
            );
            let all = shell_detector_tool::available(existing, Some(own));
            &&& exists|i: int| 0 <= i < all.len() && (#[trigger] all[i]).path == own
            &&& all.take(found.len() as int) == found
            &&& all.len() <= found.len() + 1
            &&& shell_detector_tool::available(existing, None) == found
        }),
{
    let found = shell_detector_tool::present(shell_detector_tool::common_shells(), existing);
    let all = shell_detector_tool::available(existing, Some(own));
    assert(all.take(found.len() as int) =~= found);
    if shell_detector_tool::has_path(found, own) {
        let i = choose|i: int| 0 <= i < found.len() && (#[trigger] found[i]).path == own;
        assert(all[i].path == own);
    } else {
        assert(all[found.len() as int].path == own);
    }
}

/// Every shell that is there is shown in a line of its own, with its name and its path, in order.
pub proof fn every_shell_is_shown(shells: Seq<shell_detector_tool::ShellView>)
    ensures
        shell_detector_tool::shell_lines(shells) == "Available shells:\n\n"@ + shells.map_values(
            |s: shell_detector_tool::ShellView| shell_line(s),
        ).flatten(),
    decreases shells.len(),
{
    let parts = shells.map_values(|s: shell_detector_tool::ShellView| shell_line(s));
    let head = "Available shells:\n\n"@;
    if shells.len() == 0 {
        assert(parts.flatten() =~= Seq::empty());
        assert(head + parts.flatten() =~= head);
    } else {
        let less = shells.drop_last();
        every_shell_is_shown(less);
        assert(parts.drop_last() =~= less.map_values(
            |s: shell_detector_tool::ShellView| shell_line(s),
        ));
        text_laws::flattened_one_by_one(parts);
        let front = parts.drop_last().flatten();
        let s = shells.last();
        assert(head + (front + shell_line(s)) =~= head + front + "- **"@ + s.name + "**: `"@ + s.path
            + "`\n"@);
    }
}

/// The line of a shell.
pub open spec fn shell_line(s: shell_detector_tool::ShellView) -> Seq<char> {
    "- **"@ + s.name + "**: `"@ + s.path + "`\n"@
}

// ---------------------------------------------------------------------------
// Images
// ---------------------------------------------------------------------------

/// What is shown of images: each that could be encoded, as it is, with its path below it, in order.
pub proof fn every_image_is_shown(images: Seq<(String, Option<String>)>)
    ensures
        ({
            let there = images.filter(|i: (String, Option<String>)| i.1 is Some);
            let shown = analyze_images_tool::thumbnails(images);
            &&& shown.len() == 2 * there.len()
            &&& forall|k: int|
                0 <= k < there.len() ==> shown[2 * k] == (analyze_images_tool::ThumbnailView::Image {
                    source: (#[trigger] there[k]).1->0@,
                    mime_type: "image/png"@,
                }) && shown[2 * k + 1] == analyze_images_tool::ThumbnailView::Caption(
                    "📸 `"@ + there[k].0@ + "`"@,
                )
        }),
    decreases images.len(),
{
    reveal(Seq::filter);
    if images.len() > 0 {
        every_image_is_shown(images.drop_last());
    }
}

/// The model is sent the prompt, and behind it every image, in order.
pub proof fn every_image_is_sent(prompt: Seq<char>, images: Seq<MessageImage>)
    ensures
        ({
            let sent = analyze_images_tool::request_content(prompt, images);
            &&& sent.len() == images.len() + 1
            &&& sent[0] == message::ContentView::Text(prompt)
            &&& forall|i: int|
                0 <= i < images.len() ==> sent[i + 1] == message::ContentView::Image(
                    (#[trigger] images[i])@,
                )
        }),
    decreases images.len(),
{
    if images.len() > 0 {
        let less = images.drop_last();
        every_image_is_sent(prompt, less);
        let sent = analyze_images_tool::request_content(prompt, images);
        assert forall|i: int| 0 <= i < images.len() implies sent[i + 1]
            == message::ContentView::Image((#[trigger] images[i])@) by {
            if i < less.len() {
                assert(less[i] == images[i]);
            }
        }
    }
}

/// The model is asked what was asked, and, where the answer must have a schema, for that too.
pub proof fn the_prompt_holds_the_schema(prompt: Seq<char>, schema: Option<json::JsonView>)
    ensures
        schema is None ==> analyze_images_tool::final_prompt(prompt, schema) == prompt,
        schema matches Some(s) ==> request_laws::has_part(
            analyze_images_tool::final_prompt(prompt, schema),
            json::pretty_json(s),
        ) && exists|b: Seq<char>|
            analyze_images_tool::final_prompt(prompt, schema) == #[trigger] (prompt + b),
{
    if let Some(s) = schema {
        let head = "\n\nPlease respond ONLY with valid JSON matching this exact schema:\n```json\n"@;
        let tail = "\n```\n\nDo not include any text before or after the JSON."@;
        let whole = analyze_images_tool::final_prompt(prompt, schema);
        assert(whole == (prompt + head) + json::pretty_json(s) + tail);
        assert(whole =~= prompt + (head + json::pretty_json(s) + tail));
    }
}

/// What a model sends back adds up, in order.
pub proof fn answers_add_up(so_far: Seq<char>, event: AnalysisEvent)
    ensures
        event matches AnalysisEvent::Text(t) ==> analyze_images_tool::text_after(so_far, event)
            == so_far + t@,
        !(event is Text) ==> analyze_images_tool::text_after(so_far, event) == so_far,
{
}

/// An analysis is given back as it is, under a heading where it has none and is to have one, or as a
/// value with the time.
pub proof fn analyses_are_given_back(analysis: Seq<char>, now: Seq<char>)
    ensures
        analyze_images_tool::formatted(analysis, OutputFormat::Text, now) == analysis,
        ({
            let shown = analyze_images_tool::formatted(analysis, OutputFormat::Markdown, now);
            let headed = text::trim(analysis).len() > 0 && text::trim(analysis)[0] == '#';
            &&& headed ==> shown == analysis
            &&& !headed ==> shown == "# Image Analysis\n\n"@ + analysis
        }),
        exists|j: json::JsonView|
            {
                &&& analyze_images_tool::formatted(analysis, OutputFormat::Json, now)
                    == #[trigger] json::compact_json(j)
                &&& laws::has_entry(j, "analysis"@, json::JsonView::Text(analysis))
                &&& laws::has_entry(j, "timestamp"@, json::JsonView::Text(now))
            },
{
    reveal_strlit("#");
    let t = text::trim(analysis);
    if t.len() > 0 {
        let start = t.subrange(0, 0 + "#"@.len() as int);
        if t[0] == '#' {
            assert(start =~= "#"@);
        } else if text::starts_with(t, "#"@) {
            assert(start[0] == t[0]);
        }
    }
    let j = analyze_images_tool::timed_analysis(analysis, now);
    let f = j->Object_0;
    assert(f[0] == ("analysis"@, json::JsonView::Text(analysis)));
    assert(f[1] == ("timestamp"@, json::JsonView::Text(now)));
    assert(analyze_images_tool::formatted(analysis, OutputFormat::Json, now) == json::compact_json(
        j,
    ));
}

/// The value that an answer holds is the answer itself, where it is JSON; else what stands in its first
/// code block of JSON.
pub proof fn the_first_block_is_read(s: Seq<char>, start: int, end: int)
    requires
        0 <= start,
        text::stands_at(s, "```json"@, start),
        forall|i: int| 0 <= i < start ==> !text::stands_at(s, "```json"@, i),
        start + 7 <= end,
        text::stands_at(s, "```"@, end),
        forall|i: int| start + 7 <= i < end ==> !text::stands_at(s, "```"@, i),
    ensures
        analyze_images_tool::json_part(s) == Some(text::trim(s.subrange(start + 7, end))),
        json::parsed_json(s) matches Ok(j) ==> analyze_images_tool::json_answer(s) == Some(j),
        (json::parsed_json(s) is Err && json::parsed_json(
            text::trim(s.subrange(start + 7, end)),
        ) is Ok) ==> analyze_images_tool::json_answer(s) == Some(
            json::parsed_json(text::trim(s.subrange(start + 7, end)))->Ok_0,
        ),
{
    text::find_is_first(s, "```json"@, 0);
    text::find_is_first(s, "```"@, start + 7);
}

/// What holds no value is given back as it is, behind a warning.
pub proof fn other_answers_are_kept(s: Seq<char>)
    ensures
        request_laws::has_part(analyze_images_tool::structured(s, None), s),
        forall|j: json::JsonView|
            analyze_images_tool::structured(s, Some(j)) == #[trigger] json::pretty_json(j),
{
    let head = "⚠️ Warning: Response was not valid JSON matching the schema.\n\nRaw response:\n"@;
    assert(analyze_images_tool::structured(s, None) =~= head + s + Seq::<char>::empty());
}

/// The first bytes of an image tell its format.
pub proof fn first_bytes_tell_the_format(rest: Seq<u8>)
    ensures
        analyze_images_tool::format_by_bytes(
            seq![0x89u8, 0x50u8, 0x4Eu8, 0x47u8, 0x0Du8, 0x0Au8, 0x1Au8, 0x0Au8] + rest,
        ) == ImageFormat::Png,
        analyze_images_tool::format_by_bytes(seq![0xFFu8, 0xD8u8, 0xFFu8] + rest)
            == ImageFormat::Jpeg,
        analyze_images_tool::format_by_bytes(seq![0x42u8, 0x4Du8] + rest) == ImageFormat::Bmp,
        analyze_images_tool::format_by_bytes(seq![0x49u8, 0x49u8, 0x2Au8, 0x00u8] + rest)
            == ImageFormat::Tiff,
        analyze_images_tool::format_by_bytes(
            seq![0x47u8, 0x49u8, 0x46u8, 0x38u8, 0x37u8, 0x61u8] + rest,
        ) == ImageFormat::Gif,
        analyze_images_tool::format_by_bytes(
            seq![0x47u8, 0x49u8, 0x46u8, 0x38u8, 0x39u8, 0x61u8] + rest,
        ) == ImageFormat::Gif,
{
    let png = seq![0x89u8, 0x50u8, 0x4Eu8, 0x47u8, 0x0Du8, 0x0Au8, 0x1Au8, 0x0Au8];
    let jpeg = seq![0xFFu8, 0xD8u8, 0xFFu8];
    let bmp = seq![0x42u8, 0x4Du8];
    let tiff = seq![0x49u8, 0x49u8, 0x2Au8, 0x00u8];
    let gif = seq![0x47u8, 0x49u8, 0x46u8, 0x38u8, 0x37u8, 0x61u8];
    let gif9 = seq![0x47u8, 0x49u8, 0x46u8, 0x38u8, 0x39u8, 0x61u8];
    assert((png + rest).subrange(0, 8) =~= png);
    assert((jpeg + rest).subrange(0, 3) =~= jpeg);
    assert((bmp + rest).subrange(0, 2) =~= bmp);
    assert((tiff + rest).subrange(0, 4) =~= tiff);
    assert((gif + rest).subrange(0, 6) =~= gif);
    assert((gif9 + rest).subrange(0, 6) =~= gif9);
    starts_differ(jpeg + rest);
    starts_differ(bmp + rest);
    starts_differ(tiff + rest);
    starts_differ(gif + rest);
    starts_differ(gif9 + rest);
}

proof fn starts_differ(data: Seq<u8>)
    ensures
        forall|part: Seq<u8>|
            part.len() > 0 && data.len() > 0 && part[0] != data[0]
                ==> !(#[trigger] analyze_images_tool::bytes_at(data, part, 0)),
{
    assert forall|part: Seq<u8>|
        part.len() > 0 && data.len() > 0 && part[0] != data[0] implies !(
    #[trigger] analyze_images_tool::bytes_at(data, part, 0)) by {
        if analyze_images_tool::bytes_at(data, part, 0) {
            assert(data.subrange(0, part.len() as int)[0] == data[0]);
        }
    }
}

// ---------------------------------------------------------------------------
// Programs
// ---------------------------------------------------------------------------

/// What is scanned is every program of every group, under its group, in order.
pub proof fn every_program_is_scanned(groups: Seq<(Seq<char>, Seq<Seq<char>>)>, i: int, k: int)
    requires
        0 <= i < groups.len(),
        0 <= k < groups[i].1.len(),
    ensures
        detect_binaries_tool::scan_of(groups).contains((groups[i].0, groups[i].1[k])),
    decreases groups.len(),
{
    let less = groups.drop_last();
    let before = detect_binaries_tool::scan_of(less);
    let all = detect_binaries_tool::scan_of(groups);
    let task = (groups[i].0, groups[i].1[k]);
    if i < less.len() {
        every_program_is_scanned(less, i, k);
        let j = choose|j: int| 0 <= j < before.len() && before[j] == task;
        assert(all[j] == task);
    } else {
        assert(all[before.len() + k] == task);
    }
}

/// Nothing is scanned but programs of the groups, and each once for each group that lists it.
pub proof fn nothing_else_is_scanned(groups: Seq<(Seq<char>, Seq<Seq<char>>)>)
    ensures
        forall|j: int|
            0 <= j < detect_binaries_tool::scan_of(groups).len() ==> detect_binaries_tool::lists(
                groups,
                (#[trigger] detect_binaries_tool::scan_of(groups)[j]).0,
                detect_binaries_tool::scan_of(groups)[j].1,
            ),
        detect_binaries_tool::scan_of(groups).len() == groups.fold_left(
            0nat,
            |n: nat, g: (Seq<char>, Seq<Seq<char>>)| n + g.1.len(),
        ),
    decreases groups.len(),
{
    reveal_with_fuel(Seq::fold_left, 2);
    if groups.len() > 0 {
        let less = groups.drop_last();
        nothing_else_is_scanned(less);
        let before = detect_binaries_tool::scan_of(less);
        let all = detect_binaries_tool::scan_of(groups);
        let last = groups.last();
        assert(groups[groups.len() - 1] == last);
        assert forall|j: int| 0 <= j < all.len() implies detect_binaries_tool::lists(
            groups,
            (#[trigger] all[j]).0,
            all[j].1,
        ) by {
            if j < before.len() {
                assert(before[j] == all[j]);
                let i = choose|i: int|
                    0 <= i < less.len() && (#[trigger] less[i]).0 == before[j].0
                        && less[i].1.contains(before[j].1);
                assert(groups[i] == less[i]);
            } else {
                assert(all[j] == (last.0, last.1[j - before.len()]));
                assert(last.1.contains(last.1[j - before.len()]));
            }
        }
    }
}

/// A program is found where it is in some place. Its version, or why it has none, is told only then, and
/// its places only where there are several.
pub proof fn reports_tell_what_was_found(
    category: Seq<char>,
    name: Seq<char>,
    paths: Seq<Seq<char>>,
    version: Result<Seq<char>, Seq<char>>,
    elapsed_ms: u64,
)
    ensures
        ({
            let r = detect_binaries_tool::report(category, name, paths, version, elapsed_ms);
            &&& r.name == name && r.category == category && r.elapsed_ms == Some(elapsed_ms)
            &&& r.found <==> paths.len() > 0
            &&& r.path is Some <==> paths.len() > 1
            &&& r.path is Some ==> r.path->0 == text::join(paths, ";"@)
            &&& (paths.len() > 0 && version is Ok) ==> r.version == Some(version->Ok_0)
                && r.error is None
            &&& (paths.len() > 0 && version is Err) ==> r.error == Some(version->Err_0)
                && r.version is None
            &&& paths.len() == 0 ==> r.version is None && r.error is None
        }),
{
}

/// The number of programs that were found is that of the reports that say so.
pub proof fn found_programs_are_counted(reports: Seq<detect_binaries_tool::ReportView>)
    ensures
        detect_binaries_tool::found_count(reports) == reports.filter(
            |r: detect_binaries_tool::ReportView| r.found,
        ).len(),
    decreases reports.len(),
{
    reveal(Seq::filter);
    if reports.len() > 0 {
        found_programs_are_counted(reports.drop_last());
    }
}

/// What is given back holds every report, in order, with all that it tells, and sums them up.
pub proof fn every_report_is_given_back(
    reports: Seq<detect_binaries_tool::ReportView>,
    scanned: usize,
    categories: Seq<Seq<char>>,
    timeout_ms: u64,
)
    requires
        detect_binaries_tool::found_count(reports) <= scanned,
    ensures
        ({
            let found = reports.filter(|r: detect_binaries_tool::ReportView| r.found).len();
            let sorted = detect_binaries_tool::sorted_reports(reports);
            let j = detect_binaries_tool::output(reports, scanned, categories, timeout_ms);
            &&& exists|items: Seq<json::JsonView>|
                {
                    &&& #[trigger] laws::has_entry(j, "binaries"@, json::JsonView::Array(items))
                    &&& items.len() == sorted.len()
                    &&& forall|i: int|
                        0 <= i < items.len() ==> tells_report(#[trigger] items[i], sorted[i])
                }
            &&& exists|sums: json::JsonView|
                {
                    &&& #[trigger] laws::has_entry(j, "summary"@, sums)
                    &&& laws::has_entry(
                        sums,
                        "total_scanned"@,
                        json::JsonView::Unsigned(scanned as u64),
                    )
                    &&& laws::has_entry(sums, "found"@, json::JsonView::Unsigned(found as u64))
                    &&& laws::has_entry(
                        sums,
                        "missing"@,
                        json::JsonView::Unsigned((scanned - found) as u64),
                    )
                    &&& laws::has_entry(
                        sums,
                        "version_timeout_ms"@,
                        json::JsonView::Unsigned(timeout_ms),
                    )
                }
        }),
{
    found_programs_are_counted(reports);
    let j = detect_binaries_tool::output(reports, scanned, categories, timeout_ms);
    let fields = j->Object_0;
    let items = fields[0].1->Array_0;
    let sorted = detect_binaries_tool::sorted_reports(reports);
    assert(fields[0] == ("binaries"@, json::JsonView::Array(items)));
    assert(laws::has_entry(j, "binaries"@, json::JsonView::Array(items)));
    assert forall|i: int| 0 <= i < items.len() implies tells_report(
        #[trigger] items[i],
        sorted[i],
    ) by {
        let f = items[i]->Object_0;
        assert(f[0].0 == "name"@ && f[1].0 == "category"@ && f[2].0 == "found"@);
        assert(f[3].0 == "path"@ && f[4].0 == "version"@ && f[6].0 == "error"@);
        assert(f[5].0 == "elapsed_ms"@);
    }
    let sums = fields[1].1;
    assert(fields[1] == ("summary"@, sums));
    assert(laws::has_entry(j, "summary"@, sums));
    let s = sums->Object_0;
    assert(s[0].0 == "total_scanned"@ && s[1].0 == "found"@ && s[2].0 == "missing"@);
    assert(s[4].0 == "version_timeout_ms"@);
}

/// Whether a value tells what a report does.
pub open spec fn tells_report(j: json::JsonView, r: detect_binaries_tool::ReportView) -> bool {
    &&& laws::has_entry(j, "name"@, json::JsonView::Text(r.name))
    &&& laws::has_entry(j, "category"@, json::JsonView::Text(r.category))
    &&& laws::has_entry(j, "found"@, json::JsonView::Bool(r.found))
    &&& r.path matches Some(p) ==> laws::has_entry(j, "path"@, json::JsonView::Text(p))
    &&& r.path is None ==> laws::has_entry(j, "path"@, json::JsonView::Null)
    &&& r.version matches Some(v) ==> laws::has_entry(j, "version"@, json::JsonView::Text(v))
    &&& r.version is None ==> laws::has_entry(j, "version"@, json::JsonView::Null)
    &&& r.error matches Some(e) ==> laws::has_entry(j, "error"@, json::JsonView::Text(e))
    &&& r.error is None ==> laws::has_entry(j, "error"@, json::JsonView::Null)
    &&& r.elapsed_ms matches Some(ms) ==> laws::has_entry(
        j,
        "elapsed_ms"@,
        json::JsonView::Unsigned(ms),
    )
}

/// Whether a name is among others, whatever its case.
pub open spec fn named_in(names: Seq<String>, name: Seq<char>) -> bool {
    exists|i: int|
        0 <= i < names.len() && text::lowercase((#[trigger] names[i])@) == text::lowercase(name)
}

proof fn lower_names(names: Seq<String>, name: Seq<char>)
    ensures
        detect_binaries_tool::lowercases(text::views(names)).contains(text::lowercase(name))
            <==> named_in(names, name),
{
    let lower = detect_binaries_tool::lowercases(text::views(names));
    if lower.contains(text::lowercase(name)) {
        let i = choose|i: int| 0 <= i < lower.len() && lower[i] == text::lowercase(name);
        assert(text::lowercase(names[i]@) == text::lowercase(name));
    }
    if named_in(names, name) {
        let i = choose|i: int|
            0 <= i < names.len() && text::lowercase((#[trigger] names[i])@) == text::lowercase(name);
        assert(lower[i] == text::lowercase(name));
    }
}

/// A group is looked at exactly where it is not excluded and is among those that are asked for, by the
/// settings and by the filter, whatever the case of their names.
pub proof fn wanted_groups_are_asked_for(
    cfg: DetectBinariesSettings,
    filter: Option<Vec<String>>,
    group: Seq<char>,
)
    ensures
        detect_binaries_tool::wanted(cfg, filter, group) <==> {
            &&& !named_in(cfg.exclude_groups@, group)
            &&& cfg.include_only_groups is Some ==> named_in(cfg.include_only_groups->0@, group)
            &&& filter is Some ==> named_in(filter->0@, group)
        },
{
    lower_names(cfg.exclude_groups@, group);
    if let Some(only) = cfg.include_only_groups {
        lower_names(only@, group);
    }
    if let Some(f) = filter {
        lower_names(f@, group);
    }
}

/// A program is left out exactly where its name is among those that are excluded, whatever its case.
pub proof fn excluded_programs_are_named(cfg: DetectBinariesSettings, bin: Seq<char>)
    ensures
        detect_binaries_tool::excluded(cfg, bin) <==> named_in(cfg.exclude_binaries@, bin),
{
    lower_names(cfg.exclude_binaries@, bin);
}

/// A program that the settings add to a group is offered by it, whatever the case of its name.
pub proof fn added_programs_are_offered(cfg: DetectBinariesSettings, j: int, k: int)
    ensures
        0 <= j < cfg.add_groups@.len() && 0 <= k < cfg.add_groups@[j].1@.len()
            ==> detect_binaries_tool::offered(
            cfg,
            text::lowercase(cfg.add_groups@[j].0@),
            cfg.add_groups@[j].1@[k]@,
        ),
        0 <= j < cfg.add_binaries@.len() && 0 <= k < cfg.add_binaries@[j].1@.len()
            ==> detect_binaries_tool::offered(
            cfg,
            text::lowercase(cfg.add_binaries@[j].0@),
            cfg.add_binaries@[j].1@[k]@,
        ),
{
    let added = detect_binaries_tool::group_views(cfg.add_groups@);
    let more = detect_binaries_tool::group_views(cfg.add_binaries@);
    if 0 <= j < cfg.add_groups@.len() && 0 <= k < cfg.add_groups@[j].1@.len() {
        let bin = cfg.add_groups@[j].1@[k]@;
        assert(added[j].1[k] == bin);
        assert(added[j].1.contains(bin));
        assert(detect_binaries_tool::lists_lower(added, text::lowercase(added[j].0), bin));
    }
    if 0 <= j < cfg.add_binaries@.len() && 0 <= k < cfg.add_binaries@[j].1@.len() {
        let bin = cfg.add_binaries@[j].1@[k]@;
        assert(more[j].1[k] == bin);
        assert(more[j].1.contains(bin));
        assert(detect_binaries_tool::lists_lower(more, text::lowercase(more[j].0), bin));
    }
}

/// A path is that of a page of the web exactly where it starts as one.
pub proof fn pages_start_with_their_scheme(path: Seq<char>)
    ensures
        analyze_images_tool::is_url(path) <==> (exists|b: Seq<char>|
            path == #[trigger] ("http://"@ + b)) || (exists|b: Seq<char>|
            path == #[trigger] ("https://"@ + b)),
{
    text_laws::starts_are_followed(path, "http://"@);
    text_laws::starts_are_followed(path, "https://"@);
}

/// The name of an image tells its format, where its extension is one of an image, whatever its case; else
/// its bytes do.
pub proof fn names_tell_the_format_first(stem: Seq<char>, ext: Seq<char>, data: Seq<u8>)
    requires
        !ext.contains('.'),
    ensures
        ({
            let path = stem.push('.') + ext;
            let by_name = analyze_images_tool::format_by_extension(text::lowercase(ext));
            &&& by_name is Some ==> analyze_images_tool::image_format(path, data) == by_name->0
            &&& by_name is None ==> analyze_images_tool::image_format(path, data)
                == analyze_images_tool::format_by_bytes(data)
        }),
{
    text_laws::split_of_both(stem, ext, '.');
    text_laws::pieces_of_one(ext, '.');
    text::split_is_not_empty(stem, '.');
    assert(text::split(stem.push('.') + ext, '.').last() == ext);
}

/// The formats of images are known by their usual extensions, and by no others.
pub proof fn extensions_of_images_are_known(ext: Seq<char>)
    ensures
        analyze_images_tool::format_by_extension(ext) == Some(ImageFormat::Png) <==> ext == "png"@,
        analyze_images_tool::format_by_extension(ext) == Some(ImageFormat::Jpeg) <==> ext == "jpg"@
            || ext == "jpeg"@,
        analyze_images_tool::format_by_extension(ext) == Some(ImageFormat::Gif) <==> ext == "gif"@,
        analyze_images_tool::format_by_extension(ext) == Some(ImageFormat::Webp) <==> ext == "webp"@,
        analyze_images_tool::format_by_extension(ext) == Some(ImageFormat::Svg) <==> ext == "svg"@,
        analyze_images_tool::format_by_extension(ext) == Some(ImageFormat::Bmp) <==> ext == "bmp"@,
        analyze_images_tool::format_by_extension(ext) == Some(ImageFormat::Tiff) <==> ext == "tiff"@
            || ext == "tif"@,
{
    reveal_strlit("png");
    reveal_strlit("jpg");
    reveal_strlit("jpeg");
    reveal_strlit("gif");
    reveal_strlit("webp");
    reveal_strlit("svg");
    reveal_strlit("bmp");
    reveal_strlit("tiff");
    reveal_strlit("tif");
    assert("png"@.len() == 3 && "jpg"@.len() == 3 && "gif"@.len() == 3 && "svg"@.len() == 3);
    assert("bmp"@.len() == 3 && "tif"@.len() == 3 && "jpeg"@.len() == 4 && "webp"@.len() == 4);
    assert("tiff"@.len() == 4);
    assert("png"@[0] == 'p' && "jpg"@[0] == 'j' && "gif"@[0] == 'g' && "svg"@[0] == 's');
    assert("bmp"@[0] == 'b' && "tif"@[0] == 't' && "jpeg"@[0] == 'j' && "webp"@[0] == 'w');
    assert("tiff"@[0] == 't');
}

/// The title of a command is its first line, with how many lines follow, where some do.
pub proof fn titles_show_the_first_line(first: Seq<char>, rest: Seq<char>, use_sudo: bool)
    requires
        first.len() > 0,
        !first.contains('\n'),
        first.last() != '\r',
    ensures
        ({
            let prefix = if use_sudo {
                "sudo "@
            } else {
                Seq::<char>::empty()
            };
            let more = text::lines(rest).len();
            let title = enhanced_terminal_tool::title_line(first + "\n"@ + rest, use_sudo);
            &&& enhanced_terminal_tool::title_line(first, use_sudo) == prefix + first
            &&& more == 0 ==> title == prefix + first
            &&& more == 1 ==> title == prefix + first + " - "@ + text::decimal(1) + " more line"@
            &&& more > 1 ==> title == prefix + first + " - "@ + text::decimal(more) + " more lines"@
        }),
{
    text_laws::a_line_is_its_own_line(first);
    text_laws::a_line_and_more(first, rest);
}

/// The shells that are there are shown, with the one of the user; where there are none, that is said.
pub proof fn shown_shells_hold_the_lines(
    shells: Seq<shell_detector_tool::ShellView>,
    own: Option<Seq<char>>,
)
    ensures
        ({
            let shown = shell_detector_tool::shown_shells(shells, own);
            &&& shells.len() == 0 ==> shown == "No shells detected on the system."@
            &&& shells.len() > 0 ==> exists|b: Seq<char>|
                shown == #[trigger] (shell_detector_tool::shell_lines(shells) + b)
            &&& (shells.len() > 0 && own is Some) ==> request_laws::has_part(
                shown,
                "\nCurrent shell (from $SHELL): `"@ + own->0 + "`\n"@,
            )
        }),
{
    let shown = shell_detector_tool::shown_shells(shells, own);
    if shells.len() > 0 {
        let lines = shell_detector_tool::shell_lines(shells);
        let tail =
            "\nYou can use any of these shells when executing terminal commands by specifying the full path or shell name."@;
        match own {
            Some(path) => {
                let said = "\nCurrent shell (from $SHELL): `"@ + path + "`\n"@;
                assert(shown =~= lines + said + tail);
                assert(lines + said + tail =~= lines + (said + tail));
            },
            None => {
                assert(shown == lines + tail);
            },
        }
    }
}

/// A shell that is named by its path is looked for there alone.
pub proof fn shells_with_a_path_are_looked_for_there(shell: Seq<char>)
    requires
        shell.len() > 0,
        shell[0] == '/',
    ensures
        enhanced_terminal_tool::candidates(shell) == seq![shell],
{
    reveal_strlit("/");
    assert(shell.subrange(0, 0 + "/"@.len() as int) =~= "/"@);
}

} // verus!
