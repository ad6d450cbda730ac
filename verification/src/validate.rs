//! Field validation of timer configurations: which names and block
//! durations a timer may be saved with, and the exact error list a
//! rejected configuration produces.

use vstd::prelude::*;

use crate::model::{CountdownBlock, TimerBlock, TimerConfig, ValidationError, WaitBlock};
use crate::text::{dec_of, push_char, u64_dec_string};

verus! {

/// Relies on std's `char::is_alphanumeric`: whether the character is
/// Unicode-alphabetic or numeric, a function of the character alone.
#[verifier::external_body]
fn char_is_alphanumeric(c: char) -> (r: bool)
    ensures
        r == is_alphanumeric_char(c),
{
    c.is_alphanumeric()
}

/// What std's `char::is_alphanumeric` returns for a character.
pub uninterp spec fn is_alphanumeric_char(c: char) -> bool;

pub open spec fn is_japanese_char(ch: char) -> bool {
    let c = ch as u32;
    (0x3040 <= c && c <= 0x309F) || (0x30A0 <= c && c <= 0x30FF) || (0x4E00 <= c && c <= 0x9FFF)
        || (0xFF00 <= c && c <= 0xFFEF)
}

/// Whether a character falls in the hiragana, katakana, common
/// ideograph, or halfwidth/fullwidth form ranges.
pub fn is_japanese(ch: char) -> (r: bool)
    ensures
        r == is_japanese_char(ch),
{
    let c = ch as u32;
    (0x3040 <= c && c <= 0x309F) || (0x30A0 <= c && c <= 0x30FF) || (0x4E00 <= c && c <= 0x9FFF)
        || (0xFF00 <= c && c <= 0xFFEF)
}

/// A character a timer name may contain.
pub open spec fn valid_name_char(ch: char) -> bool {
    is_alphanumeric_char(ch) || ch == ' ' || ch == '_' || is_japanese_char(ch)
}

/// The first character of the name that is not allowed, if any.
pub open spec fn first_invalid_char(name: Seq<char>) -> Option<char>
    decreases name.len(),
{
    if name.len() == 0 {
        None
    } else if !valid_name_char(name[0]) {
        Some(name[0])
    } else {
        first_invalid_char(name.skip(1))
    }
}

pub proof fn lemma_first_invalid_none(name: Seq<char>)
    ensures
        (first_invalid_char(name) is None) <==> (forall|i: int|
            0 <= i < name.len() ==> valid_name_char(name[i])),
    decreases name.len(),
{
    if name.len() > 0 {
        lemma_first_invalid_none(name.skip(1));
        if valid_name_char(name[0]) {
            assert forall|i: int| 0 <= i < name.len() implies (first_invalid_char(name) is None)
                ==> valid_name_char(name[i]) by {
                if i > 0 {
                    assert(name.skip(1)[i - 1] == name[i]);
                }
            }
            if forall|i: int| 0 <= i < name.len() ==> valid_name_char(name[i]) {
                assert forall|i: int| 0 <= i < name.skip(1).len() implies valid_name_char(
                    name.skip(1)[i],
                ) by {
                    assert(name.skip(1)[i] == name[i + 1]);
                }
            }
        }
    }
}

/// A timer name the validator accepts: non-empty, at most 64
/// characters, all of them allowed.
pub open spec fn name_valid(name: Seq<char>) -> bool {
    &&& name.len() >= 1
    &&& name.len() <= 64
    &&& forall|i: int| 0 <= i < name.len() ==> valid_name_char(name[i])
}

/// The ranges the validator accepts for one block.
pub open spec fn block_valid(b: TimerBlock) -> bool {
    match b {
        TimerBlock::Wait(w) => {
            &&& 1 <= w.seconds <= 59
            &&& w.minutes <= 1440
        },
        TimerBlock::Countdown(c) => {
            &&& 1 <= c.seconds <= 59
            &&& c.minutes <= 1440
            &&& c.repeat_count <= 100
            &&& c.interval_minutes <= 1440
            &&& c.interval_seconds <= 59
        },
    }
}

/// A configuration the validator accepts.
pub open spec fn config_valid(name: Seq<char>, blocks: Seq<TimerBlock>) -> bool {
    &&& name_valid(name)
    &&& blocks.len() >= 1
    &&& forall|i: int| 0 <= i < blocks.len() ==> block_valid(blocks[i])
}

// ---------------------------------------------------------------------
// The exact error list: each error as a (field, message) pair, in the
// order the validator reports them.
// ---------------------------------------------------------------------

pub open spec fn err_view(e: ValidationError) -> (Seq<char>, Seq<char>) {
    (e.field@, e.message@)
}

pub open spec fn errs_view(v: Seq<ValidationError>) -> Seq<(Seq<char>, Seq<char>)> {
    v.map_values(|e: ValidationError| err_view(e))
}

pub open spec fn invalid_char_message(ch: char) -> Seq<char> {
    "タイマー名に無効な文字が含まれています: '"@ + seq![ch] + "'"@
}

pub open spec fn name_error_list(name: Seq<char>) -> Seq<(Seq<char>, Seq<char>)> {
    (if name.len() == 0 {
        seq![("name"@, "タイマー名は必須です"@)]
    } else {
        Seq::empty()
    }) + (if name.len() > 64 {
        seq![("name"@, "タイマー名は64文字以内にしてください"@)]
    } else {
        Seq::empty()
    }) + (match first_invalid_char(name) {
        Some(ch) => seq![("name"@, invalid_char_message(ch))],
        None => Seq::empty(),
    })
}

/// The field name `blocks[i].<suffix>`.
pub open spec fn spec_field_name(i: int, suffix: Seq<char>) -> Seq<char> {
    "blocks["@ + dec_of(i) + "]."@ + suffix
}

pub open spec fn wait_error_list(w: WaitBlock, i: int) -> Seq<(Seq<char>, Seq<char>)> {
    (if w.seconds < 1 || w.seconds > 59 {
        seq![(spec_field_name(i, "seconds"@), "待機秒は1〜59の範囲で入力してください"@)]
    } else {
        Seq::empty()
    }) + (if w.minutes > 1440 {
        seq![(spec_field_name(i, "minutes"@), "待機分は0〜1440の範囲で入力してください"@)]
    } else {
        Seq::empty()
    })
}

pub open spec fn countdown_error_list(c: CountdownBlock, i: int) -> Seq<(Seq<char>, Seq<char>)> {
    (if c.seconds < 1 || c.seconds > 59 {
        seq![
            (spec_field_name(i, "seconds"@), "カウントダウン秒は1〜59の範囲で入力してください"@),
        ]
    } else {
        Seq::empty()
    }) + (if c.minutes > 1440 {
        seq![
            (spec_field_name(i, "minutes"@), "カウントダウン分は0〜1440の範囲で入力してください"@),
        ]
    } else {
        Seq::empty()
    }) + (if c.repeat_count > 100 {
        seq![
            (
                spec_field_name(i, "repeat_count"@),
                "繰り返し回数は0〜100の範囲で入力してください"@,
            ),
        ]
    } else {
        Seq::empty()
    }) + (if c.interval_minutes > 1440 {
        seq![
            (
                spec_field_name(i, "interval_minutes"@),
                "インターバル分は0〜1440の範囲で入力してください"@,
            ),
        ]
    } else {
        Seq::empty()
    }) + (if c.interval_seconds > 59 {
        seq![
            (
                spec_field_name(i, "interval_seconds"@),
                "インターバル秒は0〜59の範囲で入力してください"@,
            ),
        ]
    } else {
        Seq::empty()
    })
}

pub open spec fn block_error_list(b: TimerBlock, i: int) -> Seq<(Seq<char>, Seq<char>)> {
    match b {
        TimerBlock::Wait(w) => wait_error_list(w, i),
        TimerBlock::Countdown(c) => countdown_error_list(c, i),
    }
}

pub open spec fn blocks_error_list(blocks: Seq<TimerBlock>, n: int) -> Seq<(Seq<char>, Seq<char>)>
    decreases n,
{
    if n <= 0 {
        Seq::empty()
    } else {
        blocks_error_list(blocks, n - 1) + block_error_list(blocks[n - 1], n - 1)
    }
}

/// Every error of a configuration, in report order: name problems,
/// then the missing-blocks problem, then each block's problems.
pub open spec fn spec_validation_errors(
    name: Seq<char>,
    blocks: Seq<TimerBlock>,
) -> Seq<(Seq<char>, Seq<char>)> {
    name_error_list(name) + (if blocks.len() == 0 {
        seq![("blocks"@, "最低1つのブロックが必要です"@)]
    } else {
        Seq::empty()
    }) + blocks_error_list(blocks, blocks.len() as int)
}

pub proof fn lemma_blocks_errors_empty(blocks: Seq<TimerBlock>, n: int)
    requires
        n <= blocks.len(),
    ensures
        (blocks_error_list(blocks, n).len() == 0) <==> (forall|j: int|
            0 <= j < n ==> block_valid(blocks[j])),
    decreases n,
{
    if n > 0 {
        lemma_blocks_errors_empty(blocks, n - 1);
    }
}

/// A configuration is accepted exactly when its error list is empty.
pub proof fn lemma_valid_iff_no_errors(name: Seq<char>, blocks: Seq<TimerBlock>)
    ensures
        config_valid(name, blocks) <==> spec_validation_errors(name, blocks).len() == 0,
{
    lemma_first_invalid_none(name);
    lemma_blocks_errors_empty(blocks, blocks.len() as int);
}

// ---------------------------------------------------------------------
// The executable validator.
// ---------------------------------------------------------------------

/// The first character of the name that is not allowed, if any.
fn find_invalid_char(name: &str) -> (r: Option<char>)
    ensures
        r == first_invalid_char(name@),
{
    let n = name.unicode_len();
    let mut i: usize = 0;
    proof {
        assert(name@.skip(0) =~= name@);
    }
    while i < n
        invariant
            i <= n,
            n == name@.len(),
            first_invalid_char(name@) == first_invalid_char(name@.skip(i as int)),
        decreases n - i,
    {
        let ch = name.get_char(i);
        let ok = char_is_alphanumeric(ch) || ch == ' ' || ch == '_' || is_japanese(ch);
        proof {
            assert(name@.skip(i as int)[0] == name@[i as int]);
        }
        if !ok {
            return Some(ch);
        }
        proof {
            assert(name@.skip(i as int).skip(1) =~= name@.skip(i + 1));
        }
        i = i + 1;
    }
    proof {
        assert(name@.skip(n as int) =~= Seq::<char>::empty());
    }
    None
}

/// Builds the field name `blocks[i].<suffix>`.
fn field_name(i: usize, suffix: &str) -> (r: String)
    ensures
        r@ == spec_field_name(i as int, suffix@),
{
    let mut s = String::from_str("blocks[");
    let dec = u64_dec_string(i as u64);
    s.append(dec.as_str());
    s.append("].");
    s.append(suffix);
    s
}

fn push_error(errs: &mut Vec<ValidationError>, field: String, message: String)
    ensures
        errs_view(final(errs)@) == errs_view(old(errs)@).push((field@, message@)),
{
    let ghost f = field@;
    let ghost msg = message@;
    errs.push(ValidationError { field, message });
    proof {
        assert(errs_view(errs@) =~= errs_view(old(errs)@).push((f, msg)));
    }
}

/// Appends the problems of block `i` to the error list.
fn append_block_errors(errs: &mut Vec<ValidationError>, b: &TimerBlock, i: usize)
    ensures
        errs_view(final(errs)@) == errs_view(old(errs)@) + block_error_list(*b, i as int),
{
    let ghost before = errs_view(errs@);
    match b {
        TimerBlock::Wait(w) => {
            if w.seconds < 1 || w.seconds > 59 {
                push_error(
                    errs,
                    field_name(i, "seconds"),
                    String::from_str("待機秒は1〜59の範囲で入力してください"),
                );
            }
            if w.minutes > 1440 {
                push_error(
                    errs,
                    field_name(i, "minutes"),
                    String::from_str("待機分は0〜1440の範囲で入力してください"),
                );
            }
            proof {
                assert(errs_view(errs@) =~= before + block_error_list(*b, i as int));
            }
        },
        TimerBlock::Countdown(c) => {
            if c.seconds < 1 || c.seconds > 59 {
                push_error(
                    errs,
                    field_name(i, "seconds"),
                    String::from_str("カウントダウン秒は1〜59の範囲で入力してください"),
                );
            }
            if c.minutes > 1440 {
                push_error(
                    errs,
                    field_name(i, "minutes"),
                    String::from_str("カウントダウン分は0〜1440の範囲で入力してください"),
                );
            }
            if c.repeat_count > 100 {
                push_error(
                    errs,
                    field_name(i, "repeat_count"),
                    String::from_str("繰り返し回数は0〜100の範囲で入力してください"),
                );
            }
            if c.interval_minutes > 1440 {
                push_error(
                    errs,
                    field_name(i, "interval_minutes"),
                    String::from_str("インターバル分は0〜1440の範囲で入力してください"),
                );
            }
            if c.interval_seconds > 59 {
                push_error(
                    errs,
                    field_name(i, "interval_seconds"),
                    String::from_str("インターバル秒は0〜59の範囲で入力してください"),
                );
            }
            proof {
                assert(errs_view(errs@) =~= before + block_error_list(*b, i as int));
            }
        },
    }
}

impl TimerConfig {
    /// Whether this configuration passes validation.
    pub open spec fn spec_valid(self) -> bool {
        config_valid(self.name@, self.blocks@)
    }

    /// Checks the configuration, returning `Ok` exactly when it is
    /// acceptable and otherwise the full list of problems, in order:
    /// name problems first, then the missing-blocks problem, then each
    /// block's out-of-range fields.
    pub fn validate(&self) -> (r: Result<(), Vec<ValidationError>>)
        ensures
            (r is Ok) <==> self.spec_valid(),
            r matches Err(errs) ==> errs_view(errs@) == spec_validation_errors(
                self.name@,
                self.blocks@,
            ) && errs@.len() >= 1,
    {
        let mut errs: Vec<ValidationError> = Vec::new();
        let name = self.name.as_str();
        let nlen = name.unicode_len();
        if nlen == 0 {
            push_error(
                &mut errs,
                String::from_str("name"),
                String::from_str("タイマー名は必須です"),
            );
        }
        if nlen > 64 {
            push_error(
                &mut errs,
                String::from_str("name"),
                String::from_str("タイマー名は64文字以内にしてください"),
            );
        }
        let ghost after_len = errs_view(errs@);
        match find_invalid_char(name) {
            Some(ch) => {
                let mut msg = String::from_str("タイマー名に無効な文字が含まれています: '");
                push_char(&mut msg, ch);
                msg.append("'");
                push_error(&mut errs, String::from_str("name"), msg);
            },
            None => {},
        }
        proof {
            assert(errs_view(errs@) =~= name_error_list(self.name@));
        }
        if self.blocks.len() == 0 {
            push_error(
                &mut errs,
                String::from_str("blocks"),
                String::from_str("最低1つのブロックが必要です"),
            );
        }
        let ghost head = errs_view(errs@);
        proof {
            assert(head =~= name_error_list(self.name@) + (if self.blocks@.len() == 0 {
                seq![("blocks"@, "最低1つのブロックが必要です"@)]
            } else {
                Seq::<(Seq<char>, Seq<char>)>::empty()
            }));
        }
        let n = self.blocks.len();
        let mut i: usize = 0;
        while i < n
            invariant
                i <= n,
                n == self.blocks@.len(),
                head == name_error_list(self.name@) + (if self.blocks@.len() == 0 {
                    seq![("blocks"@, "最低1つのブロックが必要です"@)]
                } else {
                    Seq::<(Seq<char>, Seq<char>)>::empty()
                }),
                errs_view(errs@) == head + blocks_error_list(self.blocks@, i as int),
            decreases n - i,
        {
            append_block_errors(&mut errs, &self.blocks[i], i);
            proof {
                assert(head + blocks_error_list(self.blocks@, i as int) + block_error_list(
                    self.blocks@[i as int],
                    i as int,
                ) =~= head + blocks_error_list(self.blocks@, i + 1));
            }
            i = i + 1;
        }
        proof {
            lemma_valid_iff_no_errors(self.name@, self.blocks@);
        }
        if errs.len() == 0 {
            proof {
                assert(errs_view(errs@).len() == 0);
            }
            Ok(())
        } else {
            proof {
                assert(errs_view(errs@).len() >= 1);
            }
            Err(errs)
        }
    }
}

} // verus!
