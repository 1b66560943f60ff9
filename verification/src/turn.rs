//! What the user is told around a turn of the conversation.
use crate::catalog::{Catalog, CatalogModel, model_in};
use crate::cli::PermissionMode;
use crate::media_input::{has_files, has_images};
use crate::message::ContentBlock;
use crate::text::{copy, lemma_find_is, opt_text, split_at_first, split_once, stands_at, texts};
use vstd::prelude::*;

verus! {

/// Why a model stopped.
#[derive(Debug, PartialEq, Eq)]
pub enum FinishReason {
    Stop,
    ToolCalls,
    Length,
    ContentFilter,
    Refusal,
    Other(String),
}

/// The warning where a model stopped for another reason than being done.
pub fn finish_reason_warning(reason: &FinishReason) -> (r: Option<String>)
    ensures
        opt_text(r) == (match *reason {
            FinishReason::Length => Some(
                "⚠ Response was cut off at the model's output limit (raise max_tokens or ask it to continue)."@,
            ),
            FinishReason::ContentFilter => Some("⚠ Response was stopped by a content filter."@),
            FinishReason::Refusal => Some("⚠ The model declined to complete this request."@),
            _ => None,
        }),
{
    match reason {
        FinishReason::Length => Some(
            copy(
                "⚠ Response was cut off at the model's output limit (raise max_tokens or ask it to continue).",
            ),
        ),
        FinishReason::ContentFilter => Some(copy("⚠ Response was stopped by a content filter.")),
        FinishReason::Refusal => Some(copy("⚠ The model declined to complete this request.")),
        _ => None,
    }
}

/// The model of that name, where the catalog has it. A name is a provider and a model, divided
/// by a slash.
pub open spec fn named_model(catalog: Catalog, name: Seq<char>) -> Option<CatalogModel> {
    match split_once(name, "/"@) {
        Some((provider, model)) => model_in(catalog, provider, model),
        None => None,
    }
}

/// The warning where images go to a model that does not take them.
pub fn attachment_check(name: Option<&str>, catalog: &Catalog, has_images: bool) -> (r: Option<
    String,
>)
    ensures
        opt_text(r) == (match name {
            None => None,
            Some(n) => match named_model(*catalog, n@) {
                Some(m) => if has_images && !m.vision {
                    Some(
                        "⚠ Model "@ + n@
                            + " does not support image input - attachments may be ignored"@,
                    )
                } else {
                    None
                },
                None => None,
            },
        }),
{
    match name {
        None => None,
        Some(n) => match split_at_first(n, "/") {
            None => None,
            Some((provider, model)) => match catalog.find_model(
                provider.as_str(),
                model.as_str(),
            ) {
                None => None,
                Some(m) => if has_images && !m.vision {
                    let mut w = copy("⚠ Model ");
                    w.append(n);
                    w.append(" does not support image input - attachments may be ignored");
                    Some(w)
                } else {
                    None
                },
            },
        },
    }
}

/// The warning that goes with the content of a turn: none where nothing is attached.
pub fn turn_warning(blocks: &Vec<ContentBlock>, name: Option<&str>, catalog: &Catalog) -> (r: Option<
    String,
>)
    ensures
        ({
            let images = exists|i: int| 0 <= i < blocks@.len() && (#[trigger] blocks@[i])@ is Image;
            opt_text(r) == (match name {
                None => None,
                Some(n) => match named_model(*catalog, n@) {
                    Some(m) => if images && !m.vision {
                        Some(
                            "⚠ Model "@ + n@
                                + " does not support image input - attachments may be ignored"@,
                        )
                    } else {
                        None
                    },
                    None => None,
                },
            })
        }),
{
    let images = has_images(blocks);
    if images || has_files(blocks) {
        attachment_check(name, catalog, images)
    } else {
        None
    }
}

impl PermissionMode {
    pub open spec fn label_text(self) -> Seq<char> {
        match self {
            PermissionMode::Normal => "normal"@,
            PermissionMode::AutoEdit => "accept edits"@,
            PermissionMode::FullAuto => "auto"@,
        }
    }

    pub fn label(&self) -> (r: &'static str)
        ensures
            r@ == self.label_text(),
    {
        match self {
            PermissionMode::Normal => "normal",
            PermissionMode::AutoEdit => "accept edits",
            PermissionMode::FullAuto => "auto",
        }
    }
}

/// What the user is told when the permission mode becomes `next`. That nothing holds the agent
/// back is said the first time only; `warned` keeps that it was.
pub fn cycle_permission_mode(next: PermissionMode, sandbox_enabled: bool, warned: &mut bool) -> (r:
    Vec<String>)
    ensures
        ({
            let warn = next == PermissionMode::FullAuto && !sandbox_enabled && !*old(warned);
            &&& *final(warned) == (*old(warned) || warn)
            &&& texts(r@) == if warn {
                seq![
                    "Permission mode: "@ + next.label_text(),
                    "⚠ Full-auto mode with no sandbox - the agent can run any command without restriction."@,
                    "  Start with --sandbox for OS-level isolation."@,
                ]
            } else {
                seq!["Permission mode: "@ + next.label_text()]
            }
        }),
{
    let mut lines: Vec<String> = Vec::new();
    let mut first = copy("Permission mode: ");
    first.append(next.label());
    lines.push(first);
    if next == PermissionMode::FullAuto && !sandbox_enabled && !*warned {
        *warned = true;
        lines.push(
            copy(
                "⚠ Full-auto mode with no sandbox - the agent can run any command without restriction.",
            ),
        );
        lines.push(copy("  Start with --sandbox for OS-level isolation."));
        assert(texts(lines@) =~= seq![
            "Permission mode: "@ + next.label_text(),
            "⚠ Full-auto mode with no sandbox - the agent can run any command without restriction."@,
            "  Start with --sandbox for OS-level isolation."@,
        ]);
    } else {
        assert(texts(lines@) =~= seq!["Permission mode: "@ + next.label_text()]);
    }
    lines
}

/// A name made of a provider without a slash, a slash and a model is split into these two.
pub proof fn lemma_named_by_provider(provider: Seq<char>, model: Seq<char>)
    requires
        forall|i: int| 0 <= i < provider.len() ==> #[trigger] provider[i] != '/',
    ensures
        split_once(provider + "/"@ + model, "/"@) == Some((provider, model)),
{
    reveal_strlit("/");
    let s = provider + "/"@ + model;
    let n = provider.len() as int;
    assert(s.subrange(n, n + 1) =~= "/"@);
    assert forall|k: int| 0 <= k < n implies !stands_at(s, "/"@, k) by {
        if stands_at(s, "/"@, k) {
            assert(s.subrange(k, k + 1)[0] == s[k]);
            assert(s[k] == provider[k]);
        }
    }
    lemma_find_is(s, "/"@, 0, n);
    assert(s.take(n) =~= provider);
    assert(s.skip(n + 1) =~= model);
}

/// A model is named by its provider, a slash and its own name, which may hold more slashes.
pub proof fn models_are_named_by_their_provider(
    catalog: Catalog,
    provider: Seq<char>,
    model: Seq<char>,
)
    requires
        forall|i: int| 0 <= i < provider.len() ==> #[trigger] provider[i] != '/',
    ensures
        named_model(catalog, provider + "/"@ + model) == model_in(catalog, provider, model),
{
    lemma_named_by_provider(provider, model);
}

/// No two permission modes are shown alike.
pub proof fn permission_modes_are_told_apart(a: PermissionMode, b: PermissionMode)
    ensures
        a.label_text() == b.label_text() ==> a == b,
{
    reveal_strlit("normal");
    reveal_strlit("accept edits");
    reveal_strlit("auto");
    assert("normal"@.len() == 6 && "accept edits"@.len() == 12 && "auto"@.len() == 4);
}

/// The user is warned where a reply was cut off, filtered or declined, and not where a model was
/// done.
pub proof fn broken_replies_are_warned_of(reason: FinishReason, r: Option<String>)
    requires
        call_ensures(finish_reason_warning, (&reason,), r),
    ensures
        (r is Some) == (reason is Length || reason is ContentFilter || reason is Refusal),
{
}

/// The user is warned exactly where an image goes to a model that is known not to take images.
pub proof fn unseen_images_are_warned_of(
    blocks: Vec<ContentBlock>,
    name: &str,
    catalog: Catalog,
    r: Option<String>,
    i: int,
)
    requires
        call_ensures(turn_warning, (&blocks, Some(name), &catalog), r),
        0 <= i < blocks@.len(),
    ensures
        blocks@[i]@ is Image ==> (named_model(catalog, name@) matches Some(m) ==> (r is Some)
            == !m.vision),
        named_model(catalog, name@) is None ==> r is None,
        (forall|k: int| 0 <= k < blocks@.len() ==> !((#[trigger] blocks@[k])@ is Image)) ==> r
            is None,
{
    let images = exists|k: int| 0 <= k < blocks@.len() && (#[trigger] blocks@[k])@ is Image;
    if blocks@[i]@ is Image && named_model(catalog, name@) is Some {
        assert(images);
        let m = named_model(catalog, name@)->0;
        if m.vision {
            assert(opt_text(r) is None);
        } else {
            assert(opt_text(r) is Some);
        }
    }
}

/// The user is told the new permission mode every time, and that nothing holds the agent back
/// once: when it first may do everything without a sandbox.
pub proof fn unheld_agents_are_warned_of_once(
    next: PermissionMode,
    sandbox_enabled: bool,
    warned: &mut bool,
    r: Vec<String>,
)
    requires
        call_ensures(cycle_permission_mode, (next, sandbox_enabled, warned), r),
    ensures
        r@.len() > 0 && r@[0]@ == "Permission mode: "@ + next.label_text(),
        (r@.len() > 1) == (next == PermissionMode::FullAuto && !sandbox_enabled && !*old(warned)),
        r@.len() > 1 ==> *final(warned),
        *old(warned) ==> *final(warned),
{
    assert(texts(r@).len() == r@.len());
    assert(texts(r@)[0] == r@[0]@);
}

} // verus!
