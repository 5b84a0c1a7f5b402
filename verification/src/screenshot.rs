//! Taking a screenshot of a page.
use vstd::prelude::*;
use vstd::utf8::{decode_utf8, valid_utf8};

use crate::text::{
    decimal, decimal_text, decimals_differ, digits, digits_read_back, text_from_utf8,
};

verus! {

/// The path under which a process finds its file with a number.
pub open spec fn path_of_file(process: int, file: int) -> Seq<char> {
    "/proc/"@ + decimal(process) + "/fd/"@ + decimal(file)
}

/// The path under which a process finds its file with a number.
pub fn file_path(process: i32, file: i32) -> (path: String)
    ensures
        path@ == path_of_file(process as int, file as int),
        path@ == "/proc/"@ + decimal(process as int) + "/fd/"@ + decimal(file as int),
{
    let mut path = "/proc/".to_owned();
    path.append(decimal_text(process as i64).as_str());
    path.append("/fd/");
    path.append(decimal_text(file as i64).as_str());
    path
}

/// A program that is to be run, with its arguments.
#[derive(Debug)]
pub struct CommandLine {
    pub program: String,
    pub arguments: Vec<String>,
    /// Whether the program is told where its virtual environment is.
    pub virtual_env: bool,
    /// For how many seconds the program may run.
    pub seconds: u64,
}

impl CommandLine {
    /// What the arguments say.
    pub open spec fn says(self) -> Seq<Seq<char>> {
        self.arguments@.map_values(|argument: String| argument@)
    }
}

/// Takes a screenshot of a page, and writes the image and the text to files.
pub fn screenshot_command(source_url: &str, png_path: &str, txt_path: &str) -> (command: CommandLine)
    ensures
        command.program@ == "/usr/bin/env"@,
        command.says() == seq![
            "./env/bin/python"@,
            "./readermode_screenshot.py"@,
            source_url@,
            png_path@,
            txt_path@,
        ],
        command.virtual_env,
        command.seconds == 45,
{
    let mut arguments: Vec<String> = Vec::new();
    arguments.push("./env/bin/python".to_owned());
    arguments.push("./readermode_screenshot.py".to_owned());
    arguments.push(source_url.to_owned());
    arguments.push(png_path.to_owned());
    arguments.push(txt_path.to_owned());
    let command = CommandLine {
        program: "/usr/bin/env".to_owned(),
        arguments,
        virtual_env: true,
        seconds: 45,
    };
    assert(command.says() =~= seq![
        "./env/bin/python"@,
        "./readermode_screenshot.py"@,
        source_url@,
        png_path@,
        txt_path@,
    ]);
    command
}

/// Writes an image anew with fewer colours.
pub fn convert_command(png_path: &str, png_index_path: &str) -> (command: CommandLine)
    ensures
        command.program@ == "/usr/bin/env"@,
        command.says() == seq!["convert"@, png_path@, "-colors"@, "255"@, png_index_path@],
        !command.virtual_env,
        command.seconds == 15,
{
    let mut arguments: Vec<String> = Vec::new();
    arguments.push("convert".to_owned());
    arguments.push(png_path.to_owned());
    arguments.push("-colors".to_owned());
    arguments.push("255".to_owned());
    arguments.push(png_index_path.to_owned());
    let command = CommandLine {
        program: "/usr/bin/env".to_owned(),
        arguments,
        virtual_env: false,
        seconds: 15,
    };
    assert(command.says() =~= seq!["convert"@, png_path@, "-colors"@, "255"@, png_index_path@]);
    command
}

/// A screenshot of a page.
#[derive(Debug)]
pub struct Screenshot {
    /// What the page says.
    pub text: String,
    /// The image.
    pub png: Vec<u8>,
}

/// Why there is no screenshot.
#[derive(Debug, Clone, Copy, PartialEq, Eq, Structural)]
pub enum ScreenshotError {
    /// No text was written.
    NoText,
    /// The text is not well-formed UTF-8.
    BrokenText,
    /// No image was written.
    NoImage,
}

impl ScreenshotError {
    /// What went wrong, for a reader.
    pub fn message(&self) -> (text: &'static str)
        ensures
            text@ == (match self {
                ScreenshotError::NoText => "The text of the screenshot is empty"@,
                ScreenshotError::BrokenText => "The text of the screenshot is not UTF-8"@,
                ScreenshotError::NoImage => "The image of the screenshot is empty"@,
            }),
    {
        match self {
            ScreenshotError::NoText => "The text of the screenshot is empty",
            ScreenshotError::BrokenText => "The text of the screenshot is not UTF-8",
            ScreenshotError::NoImage => "The image of the screenshot is empty",
        }
    }
}

impl Screenshot {
    /// The screenshot that was written to files with these contents. Neither of them may be empty.
    pub fn read(text: Vec<u8>, png: Vec<u8>) -> (screenshot: Result<Self, ScreenshotError>)
        ensures
            match screenshot {
                Ok(screenshot) => {
                    &&& text@.len() > 0
                    &&& valid_utf8(text@)
                    &&& png@.len() > 0
                    &&& screenshot.text@ == decode_utf8(text@)
                    &&& screenshot.png == png
                },
                Err(ScreenshotError::NoText) => text@.len() == 0,
                Err(ScreenshotError::BrokenText) => text@.len() > 0 && !valid_utf8(text@),
                Err(ScreenshotError::NoImage) => {
                    &&& text@.len() > 0
                    &&& valid_utf8(text@)
                    &&& png@.len() == 0
                },
            },
    {
        if text.len() == 0 {
            return Err(ScreenshotError::NoText);
        }
        match text_from_utf8(text) {
            Some(text) => {
                if png.len() == 0 {
                    Err(ScreenshotError::NoImage)
                } else {
                    Ok(Screenshot { text, png })
                }
            },
            None => Err(ScreenshotError::BrokenText),
        }
    }
}

/// A screenshot that was posted.
#[derive(Debug)]
pub struct SubmittedScreenshot {
    /// Where the post is.
    pub post_url: String,
    /// Where the image is.
    pub image_url: String,
    /// What the page says.
    pub text: String,
}

impl Clone for SubmittedScreenshot {
    fn clone(&self) -> (copy: Self)
        ensures
            copy == *self,
    {
        SubmittedScreenshot {
            post_url: self.post_url.clone(),
            image_url: self.image_url.clone(),
            text: self.text.clone(),
        }
    }
}

/// No two files have the same path, whether they differ in their process or in their number.
pub proof fn files_have_their_own_paths(process: int, file: int, other: int, another: int)
    requires
        path_of_file(process, file) == path_of_file(other, another),
    ensures
        process == other,
        file == another,
{
    reveal_strlit("/proc/");
    reveal_strlit("/fd/");
    let proc = "/proc/"@;
    let fd = "/fd/"@;
    let a = decimal(process);
    let b = decimal(other);
    no_slash(process);
    no_slash(other);
    let x = proc + a + fd + decimal(file);
    let y = proc + b + fd + decimal(another);
    let from = proc.len() as int;
    if a.len() < b.len() {
        assert(x[from + a.len()] == '/');
        assert(y[from + a.len()] == b[a.len() as int]);
    }
    if b.len() < a.len() {
        assert(y[from + b.len()] == '/');
        assert(x[from + b.len()] == a[b.len() as int]);
    }
    assert(a =~= x.subrange(from, from + a.len()));
    assert(b =~= y.subrange(from, from + b.len()));
    assert(decimal(file) =~= x.skip(from + a.len() + 4));
    assert(decimal(another) =~= y.skip(from + b.len() + 4));
    decimals_differ(process, other);
    decimals_differ(file, another);
}

proof fn no_slash(n: int)
    ensures
        forall|i: int| 0 <= i < decimal(n).len() ==> #[trigger] decimal(n)[i] != '/',
{
    let size = if n < 0 {
        (-n) as nat
    } else {
        n as nat
    };
    digits_read_back(size);
    assert forall|i: int| 0 <= i < decimal(n).len() implies #[trigger] decimal(n)[i] != '/' by {
        if n >= 0 {
            assert(decimal(n)[i] == digits(size)[i]);
        } else if i > 0 {
            assert(decimal(n)[i] == digits(size)[i - 1]);
        }
    }
}

} // verus!
