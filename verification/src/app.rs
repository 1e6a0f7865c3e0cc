use vstd::prelude::*;
use vstd::std_specs::vec::vec_index_mut;
use vstd::string::StrSliceExecFns;
use vstd::string::StringExecFns;

use crate::convert::Converter;
use crate::format::ImageFormat;
use crate::text::error_status;
use crate::text::push_char;
use crate::text::status_of;
use crate::text::success_status;
use crate::text::tokenize;
use crate::text::tokenize_from;
use crate::text::trim_spaces;
use crate::text::trimmed;

verus! {

/// How keystrokes are currently interpreted.
#[derive(Clone, Copy, PartialEq, Eq, Structural, Debug)]
pub enum InputMode {
    Normal,
    AddingImage,
    SettingOutput,
}

/// One keyboard event, reduced to exactly what the dispatcher distinguishes.
#[derive(Clone, Copy, PartialEq, Eq, Structural, Debug)]
pub enum KeyInput {
    Char(char),
    Enter,
    Backspace,
    Esc,
    Other,
}

/// The mathematical value of an [`App`]: every field as a plain sequence.
#[verifier::ext_equal]
pub ghost struct AppView {
    pub images: Seq<Seq<char>>,
    pub output_folder: Seq<char>,
    pub selected_format: ImageFormat,
    pub input_mode: InputMode,
    pub input_buffer: Seq<char>,
}

impl AppView {
    /// While keystrokes are interpreted as commands, no typed text is
    /// pending.
    pub open spec fn wf(self) -> bool {
        self.input_mode == InputMode::Normal ==> self.input_buffer.len() == 0
    }
}

/// The state a freshly started session is in.
pub open spec fn initial_view() -> AppView {
    AppView {
        images: Seq::empty(),
        output_folder: "./output"@,
        selected_format: ImageFormat::Png,
        input_mode: InputMode::Normal,
        input_buffer: Seq::empty(),
    }
}

/// Whether dispatching `key` in state `s` terminates the application: only
/// the `q` key in Normal mode does.
pub open spec fn quits(s: AppView, key: KeyInput) -> bool {
    s.input_mode == InputMode::Normal && key == KeyInput::Char('q')
}

/// Whether dispatching `key` in state `s` runs the conversion pass, the one
/// transition whose outcome depends on the injected converter.
pub open spec fn is_convert_key(s: AppView, key: KeyInput) -> bool {
    s.input_mode == InputMode::Normal && key == KeyInput::Char('c')
}

/// The state after one key press in Normal mode, for every key other than
/// the conversion command.
pub open spec fn step_normal(s: AppView, key: KeyInput) -> AppView {
    if key == KeyInput::Char('a') {
        AppView {
            images: Seq::empty(),
            output_folder: s.output_folder,
            selected_format: s.selected_format,
            input_mode: InputMode::AddingImage,
            input_buffer: Seq::empty(),
        }
    } else if key == KeyInput::Char('o') {
        AppView {
            images: s.images,
            output_folder: s.output_folder,
            selected_format: s.selected_format,
            input_mode: InputMode::SettingOutput,
            input_buffer: Seq::empty(),
        }
    } else if key == KeyInput::Char('f') || key == KeyInput::Char('F') {
        AppView {
            images: s.images,
            output_folder: s.output_folder,
            selected_format: s.selected_format.next_spec(),
            input_mode: s.input_mode,
            input_buffer: s.input_buffer,
        }
    } else {
        s
    }
}

/// The state after Enter commits the pending text: typed paths are tokenized
/// and appended to the queue, a typed output directory replaces the old one
/// after trimming, and either way the session returns to Normal mode.  An
/// empty or whitespace-only submission commits nothing: it is silently
/// ignored and the directory keeps its old value.
pub open spec fn commit(s: AppView) -> AppView {
    if s.input_mode == InputMode::AddingImage {
        AppView {
            images: s.images + tokenize(s.input_buffer),
            output_folder: s.output_folder,
            selected_format: s.selected_format,
            input_mode: InputMode::Normal,
            input_buffer: Seq::empty(),
        }
    } else {
        AppView {
            images: s.images,
            output_folder: if trimmed(s.input_buffer).len() > 0 {
                trimmed(s.input_buffer)
            } else {
                s.output_folder
            },
            selected_format: s.selected_format,
            input_mode: InputMode::Normal,
            input_buffer: Seq::empty(),
        }
    }
}

/// The state after one key press while text is being typed (adding images or
/// setting the output directory).
pub open spec fn step_editing(s: AppView, key: KeyInput) -> AppView {
    match key {
        KeyInput::Char(c) => AppView {
            images: s.images,
            output_folder: s.output_folder,
            selected_format: s.selected_format,
            input_mode: s.input_mode,
            input_buffer: s.input_buffer.push(c),
        },
        KeyInput::Backspace => AppView {
            images: s.images,
            output_folder: s.output_folder,
            selected_format: s.selected_format,
            input_mode: s.input_mode,
            input_buffer: if s.input_buffer.len() > 0 {
                s.input_buffer.drop_last()
            } else {
                s.input_buffer
            },
        },
        KeyInput::Esc => AppView {
            images: s.images,
            output_folder: s.output_folder,
            selected_format: s.selected_format,
            input_mode: InputMode::Normal,
            input_buffer: Seq::empty(),
        },
        KeyInput::Enter => commit(s),
        KeyInput::Other => s,
    }
}

/// The state after one key press, for every transition except the conversion
/// pass.
pub open spec fn step(s: AppView, key: KeyInput) -> AppView {
    if s.input_mode == InputMode::Normal {
        step_normal(s, key)
    } else {
        step_editing(s, key)
    }
}

/// Whether `new` is a status line that a conversion pass may leave in place
/// of the queued path `orig`: the success line for `orig`, or the failure
/// line for `orig` with some error message.
pub open spec fn is_conversion_status(new: Seq<char>, orig: Seq<char>) -> bool {
    new == success_status(orig) || (exists|e: Seq<char>| new == error_status(orig, e))
}

/// Relates the states before and after a conversion pass: every queue entry
/// is replaced, in place, by a status line for the path it held, and every
/// other field is untouched.
pub open spec fn converted(o: AppView, n: AppView) -> bool {
    &&& n.output_folder == o.output_folder
    &&& n.selected_format == o.selected_format
    &&& n.input_mode == o.input_mode
    &&& n.input_buffer == o.input_buffer
    &&& n.images.len() == o.images.len()
    &&& forall|k: int| 0 <= k < o.images.len() ==> is_conversion_status(n.images[k], o.images[k])
}

/// For every state in which Normal mode has no pending text, one dispatched
/// key press leaves that so: the invariant holds of every reachable state.
pub proof fn lemma_step_preserves_wf(s: AppView, key: KeyInput)
    requires
        s.wf(),
    ensures
        step(s, key).wf(),
{
}

/// The whole session: the queued image paths, the chosen output directory
/// and format, and the state of the little input-mode machine.
pub struct App {
    pub images: Vec<String>,
    pub output_folder: String,
    pub selected_format: ImageFormat,
    pub input_mode: InputMode,
    pub input_buffer: String,
}

impl View for App {
    type V = AppView;

    open spec fn view(&self) -> AppView {
        AppView {
            images: self.images.deep_view(),
            output_folder: self.output_folder@,
            selected_format: self.selected_format,
            input_mode: self.input_mode,
            input_buffer: self.input_buffer@,
        }
    }
}

impl Default for App {
    /// A fresh session: nothing queued, output to `./output`, png selected,
    /// Normal mode.
    fn default() -> (r: App)
        ensures
            r@ == initial_view(),
    {
        let r = App {
            images: Vec::new(),
            output_folder: String::from_str("./output"),
            selected_format: ImageFormat::Png,
            input_mode: InputMode::Normal,
            input_buffer: String::new(),
        };
        proof {
            assert(r@ =~= initial_view());
        }
        r
    }
}

impl App {
    /// Dispatch one key press.  Returns whether the application should
    /// terminate; mutates the session according to [`step`], except for the
    /// conversion command, which calls the injected converter once per
    /// queued entry, in order, and replaces each entry with its status line.
    pub fn handle_key_event<C: Converter>(&mut self, key: KeyInput, converter: &mut C) -> (quit:
        bool)
        requires
            old(self)@.wf(),
        ensures
            quit == quits(old(self)@, key),
            final(self)@.wf(),
            !is_convert_key(old(self)@, key) ==> final(self)@ == step(old(self)@, key),
            is_convert_key(old(self)@, key) ==> converted(old(self)@, final(self)@),
    {
        let ghost o = old(self)@;
        match self.input_mode {
            InputMode::Normal => {
                match key {
                    KeyInput::Char(ch) => {
                        if ch == 'q' {
                            return true;
                        } else if ch == 'a' {
                            self.images = Vec::new();
                            self.input_mode = InputMode::AddingImage;
                            self.input_buffer = String::new();
                            proof {
                                assert(self@ =~= step(o, key));
                            }
                        } else if ch == 'o' {
                            self.input_mode = InputMode::SettingOutput;
                            self.input_buffer = String::new();
                            proof {
                                assert(self@ =~= step(o, key));
                            }
                        } else if ch == 'f' || ch == 'F' {
                            self.selected_format = self.selected_format.next();
                            proof {
                                assert(self@ =~= step(o, key));
                            }
                        } else if ch == 'c' {
                            let ghost orig_imgs = o.images;
                            let n = self.images.len();
                            let mut i: usize = 0;
                            while i < n
                                invariant
                                    i <= n,
                                    n == self.images.len(),
                                    n == orig_imgs.len(),
                                    self@.output_folder == o.output_folder,
                                    self@.selected_format == o.selected_format,
                                    self@.input_mode == o.input_mode,
                                    self@.input_buffer == o.input_buffer,
                                    forall|k: int|
                                        0 <= k < i ==> is_conversion_status(
                                            self@.images[k],
                                            orig_imgs[k],
                                        ),
                                    forall|k: int| i <= k < n ==> self@.images[k] == orig_imgs[k],
                                decreases n - i,
                            {
                                let original: String = self.images[i].clone();
                                let res = converter.convert(
                                    original.as_str(),
                                    self.output_folder.as_str(),
                                    self.selected_format,
                                );
                                let status: String = status_of(original.as_str(), res);
                                proof {
                                    assert(is_conversion_status(status@, orig_imgs[i as int]));
                                }
                                *vec_index_mut(&mut self.images, i) = status;
                                i = i + 1;
                            }
                        }
                    },
                    _ => {},
                }
            },
            InputMode::AddingImage | InputMode::SettingOutput => {
                match key {
                    KeyInput::Char(ch) => {
                        push_char(&mut self.input_buffer, ch);
                        proof {
                            assert(self@ =~= step(o, key));
                        }
                    },
                    KeyInput::Backspace => {
                        let blen = self.input_buffer.as_str().unicode_len();
                        if blen > 0 {
                            let shortened = String::from_str(
                                self.input_buffer.as_str().substring_char(0, blen - 1),
                            );
                            self.input_buffer = shortened;
                            proof {
                                assert(self@.input_buffer =~= o.input_buffer.drop_last());
                                assert(self@ =~= step(o, key));
                            }
                        }
                    },
                    KeyInput::Esc => {
                        self.input_mode = InputMode::Normal;
                        self.input_buffer = String::new();
                        proof {
                            assert(self@ =~= step(o, key));
                        }
                    },
                    KeyInput::Enter => {
                        if !self.input_buffer.as_str().is_empty() {
                            match self.input_mode {
                                InputMode::AddingImage => {
                                    let mut toks = App::parse_image_paths(
                                        self.input_buffer.as_str(),
                                    );
                                    let ghost tv = toks.deep_view();
                                    self.images.append(&mut toks);
                                    proof {
                                        assert(self@.images =~= o.images + tv);
                                    }
                                },
                                _ => {
                                    let t = trim_spaces(self.input_buffer.as_str());
                                    if !t.as_str().is_empty() {
                                        self.output_folder = t;
                                    }
                                },
                            }
                        }
                        self.input_mode = InputMode::Normal;
                        self.input_buffer = String::new();
                        proof {
                            assert(tokenize(Seq::<char>::empty()) =~= Seq::<Seq<char>>::empty());
                            assert(trimmed(Seq::<char>::empty()) =~= Seq::<char>::empty());
                            assert(self@ =~= step(o, key));
                        }
                    },
                    KeyInput::Other => {},
                }
            },
        }
        false
    }

    /// Split one typed line into path tokens: `"` toggles quoting and is
    /// dropped; spaces, commas and newlines outside quotes separate tokens
    /// and never produce empty ones; everything else is kept literally.
    pub fn parse_image_paths(input: &str) -> (paths: Vec<String>)
        ensures
            paths.deep_view() == tokenize(input@),
    {
        let len: usize = input.unicode_len();
        let mut paths: Vec<String> = Vec::new();
        let mut current: String = String::new();
        let mut in_quotes: bool = false;
        let mut i: usize = 0;
        proof {
            assert(input@.subrange(0, len as int) =~= input@);
            assert(paths.deep_view() =~= Seq::<Seq<char>>::empty());
        }
        while i < len
            invariant
                i <= len,
                len == input@.len(),
                tokenize(input@) == paths.deep_view() + tokenize_from(
                    input@.subrange(i as int, len as int),
                    in_quotes,
                    current@,
                ),
            decreases len - i,
        {
            let c = input.get_char(i);
            proof {
                assert(input@.subrange(i as int, len as int).drop_first() =~= input@.subrange(
                    i as int + 1,
                    len as int,
                ));
            }
            if c == '"' {
                in_quotes = !in_quotes;
            } else if (c == ' ' || c == ',' || c == '\n') && !in_quotes {
                if !current.as_str().is_empty() {
                    let ghost tok = current@;
                    let ghost dv = paths.deep_view();
                    paths.push(current);
                    current = String::new();
                    proof {
                        assert(paths.deep_view() =~= dv.push(tok));
                        assert(dv + (seq![tok] + tokenize_from(
                            input@.subrange(i as int + 1, len as int),
                            in_quotes,
                            Seq::<char>::empty(),
                        )) =~= dv.push(tok) + tokenize_from(
                            input@.subrange(i as int + 1, len as int),
                            in_quotes,
                            Seq::<char>::empty(),
                        ));
                    }
                }
            } else {
                push_char(&mut current, c);
            }
            i = i + 1;
        }
        proof {
            assert(input@.subrange(i as int, len as int) =~= Seq::<char>::empty());
        }
        if !current.as_str().is_empty() {
            let ghost tok = current@;
            let ghost dv = paths.deep_view();
            paths.push(current);
            proof {
                assert(paths.deep_view() =~= dv.push(tok));
                assert(dv + seq![tok] =~= dv.push(tok));
            }
        } else {
            proof {
                assert(paths.deep_view() + Seq::<Seq<char>>::empty() =~= paths.deep_view());
            }
        }
        paths
    }
}

} // verus!
