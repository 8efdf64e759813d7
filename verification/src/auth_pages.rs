//! The HTML pages the ephemeral OAuth callback listener serves.
//!
//! Three pages cover the callback outcomes: a success page when the redirect
//! delivered an API key, a session page when it delivered a session token (or
//! nothing recognizable, the lenient fallback), and an error page echoing a
//! server-reported error. The error text is HTML-escaped before it is spliced
//! into the page, so a hostile redirect cannot inject markup.

use vstd::prelude::*;
use vstd::string::StringExecFns;

verus! {

/// Shared stylesheet embedded in every page.
pub const RICOCHET_UI_CSS: &'static str = r"
:root {
    --background: #ffffff;
    --foreground: #09090b;
    --card: #ffffff;
    --card-foreground: #09090b;
    --border: #e4e4e7;
    --primary: #18181b;
    --primary-foreground: #fafafa;
    --secondary: #f4f4f5;
    --secondary-foreground: #18181b;
    --muted: #f4f4f5;
    --muted-foreground: #71717a;
    --destructive: #ef4444;
    --destructive-foreground: #fafafa;
    --font-sans: system-ui, -apple-system, sans-serif;
    --font-mono: ui-monospace, monospace;
}

@media (prefers-color-scheme: dark) {
    :root {
        --background: #09090b;
        --foreground: #fafafa;
        --card: #18181b;
        --card-foreground: #fafafa;
        --border: #27272a;
        --primary: #fafafa;
        --primary-foreground: #18181b;
        --secondary: #27272a;
        --secondary-foreground: #fafafa;
        --muted: #27272a;
        --muted-foreground: #a1a1aa;
    }
}

* {
    box-sizing: border-box;
    margin: 0;
    padding: 0;
}

body {
    margin: 0;
    font-family: var(--font-sans);
}
";

pub const SUCCESS_HEAD: &'static str = r#"<!DOCTYPE html>
<html lang="en">
<head>
    <meta charset="utf-8">
    <meta name="viewport" content="width=device-width, initial-scale=1">
    <title>Success - Ricochet CLI</title>
    <style>
        /* Include ricochet-ui styles */
        "#;

pub const SUCCESS_TAIL: &'static str = r#"

        /* Page-specific styles */
        .auth-container {
            min-height: 100vh;
            display: flex;
            align-items: center;
            justify-content: center;
            background: var(--background);
            color: var(--foreground);
            font-family: var(--font-sans);
        }

        .auth-card {
            background: var(--card);
            border: 1px solid var(--border);
            padding: 3rem;
            max-width: 24rem;
            text-align: center;
            position: relative;
        }

        .success-icon {
            width: 3rem;
            height: 3rem;
            line-height: 3rem;
            margin: 0 auto 1.5rem;
            background: oklch(0.62 0.19 142);
            color: white;
            display: flex;
            align-items: center;
            justify-content: center;
            font-size: 1.5rem;
        }

        .auth-title {
            font-size: 1.25rem;
            font-weight: 600;
            margin-bottom: 0.5rem;
            color: var(--card-foreground);
        }

        .auth-badge {
            display: inline-block;
            padding: 0.25rem 1rem;
            background: var(--secondary);
            color: var(--secondary-foreground);
            font-size: 0.75rem;
            font-weight: 500;
            margin: 1rem 0;
            letter-spacing: 0.05em;
            text-transform: uppercase;
        }

        .auth-message {
            color: var(--muted-foreground);
            margin: 1rem 0;
            font-size: 0.875rem;
            line-height: 1.5;
        }

        .terminal-hint {
            font-family: var(--font-mono);
            background: var(--primary);
            color: var(--primary-foreground);
            padding: 0.5rem 1rem;
            margin: 1.5rem 0;
            font-size: 0.75rem;
        }

        .close-hint {
            margin-top: 2rem;
            padding-top: 1.5rem;
            border-top: 1px solid var(--border);
            color: var(--muted-foreground);
            font-size: 0.75rem;
        }

        /* Dark mode detection */
        @media (prefers-color-scheme: dark) {
            html {
                color-scheme: dark;
            }
        }
    </style>
</head>
<body class="auth-container">
    <div class="auth-card">
        <div class="success-icon">✓</div>
        <h1 class="auth-title">Authentication Successful</h1>
        <div class="auth-badge">API Key Received</div>
        <p class="auth-message">Your CLI has been authenticated and is ready to use.</p>
        <div class="close-hint">You can close this window and return to the CLI</div>
    </div>
</body>
</html>"#;

pub const ERROR_HEAD: &'static str = r#"<!DOCTYPE html>
<html lang="en">
<head>
    <meta charset="utf-8">
    <meta name="viewport" content="width=device-width, initial-scale=1">
    <title>Error - Ricochet CLI</title>
    <style>
        "#;

pub const ERROR_MID: &'static str = r#"

        .auth-container {
            min-height: 100vh;
            display: flex;
            align-items: center;
            justify-content: center;
            background: var(--background);
            color: var(--foreground);
            font-family: var(--font-sans);
        }

        .auth-card {
            background: var(--card);
            border: 1px solid var(--border);
            padding: 3rem;
            max-width: 24rem;
            text-align: center;
        }

        .error-icon {
            width: 3rem;
            height: 3rem;
            line-height: 3rem;
            margin: 0 auto 1.5rem;
            background: var(--destructive);
            color: var(--destructive-foreground);
            display: flex;
            align-items: center;
            justify-content: center;
            font-size: 1.5rem;
        }

        .auth-title {
            font-size: 1.25rem;
            font-weight: 600;
            margin-bottom: 0.5rem;
            color: var(--card-foreground);
        }

        .error-message {
            background: var(--secondary);
            color: var(--secondary-foreground);
            padding: 0.75rem;
            margin: 1rem 0;
            font-family: var(--font-mono);
            font-size: 0.75rem;
            word-break: break-all;
        }

        .auth-message {
            color: var(--muted-foreground);
            margin: 1rem 0;
            font-size: 0.875rem;
        }

        .close-hint {
            margin-top: 2rem;
            padding-top: 1.5rem;
            border-top: 1px solid var(--border);
            color: var(--muted-foreground);
            font-size: 0.75rem;
        }

        @media (prefers-color-scheme: dark) {
            html {
                color-scheme: dark;
            }
        }
    </style>
</head>
<body class="auth-container">
    <div class="auth-card">
        <div class="error-icon">×</div>
        <h1 class="auth-title">Authentication Failed</h1>
        <div class="error-message">"#;

pub const ERROR_TAIL: &'static str = r#"</div>
        <p class="auth-message">Please return to the CLI and try again.</p>
        <div class="close-hint">You can close this window</div>
    </div>
</body>
</html>"#;

pub const SESSION_HEAD: &'static str = r#"<!DOCTYPE html>
<html lang="en">
<head>
    <meta charset="utf-8">
    <meta name="viewport" content="width=device-width, initial-scale=1">
    <title>Success - Ricochet CLI</title>
    <style>
        "#;

pub const SESSION_TAIL: &'static str = r#"

        .auth-container {
            min-height: 100vh;
            display: flex;
            align-items: center;
            justify-content: center;
            background: var(--background);
            color: var(--foreground);
            font-family: var(--font-sans);
        }

        .auth-card {
            background: var(--card);
            border: 1px solid var(--border);
            padding: 3rem;
            max-width: 24rem;
            text-align: center;
        }

        .success-icon {
            width: 3rem;
            height: 3rem;
            line-height: 3rem;
            margin: 0 auto 1.5rem;
            background: oklch(0.62 0.19 142);
            color: white;
            display: flex;
            align-items: center;
            justify-content: center;
            font-size: 1.5rem;
        }

        .auth-title {
            font-size: 1.25rem;
            font-weight: 600;
            margin-bottom: 0.5rem;
            color: var(--card-foreground);
        }

        .auth-badge {
            display: inline-block;
            padding: 0.25rem 1rem;
            background: var(--secondary);
            color: var(--secondary-foreground);
            font-size: 0.75rem;
            font-weight: 500;
            margin: 1rem 0;
            letter-spacing: 0.05em;
            text-transform: uppercase;
        }

        .auth-message {
            color: var(--muted-foreground);
            margin: 1rem 0;
            font-size: 0.875rem;
        }

        .close-hint {
            margin-top: 2rem;
            padding-top: 1.5rem;
            border-top: 1px solid var(--border);
            color: var(--muted-foreground);
            font-size: 0.75rem;
        }

        @media (prefers-color-scheme: dark) {
            html {
                color-scheme: dark;
            }
        }
    </style>
</head>
<body class="auth-container">
    <div class="auth-card">
        <div class="success-icon">✓</div>
        <h1 class="auth-title">Authentication Successful</h1>
        <div class="auth-badge">Session Established</div>
        <p class="auth-message">Your CLI session has been authenticated.</p>
        <div class="close-hint">You can close this window and return to the CLI</div>
    </div>
</body>
</html>"#;

/// How one character of untrusted text renders inside HTML text.
pub open spec fn escape_char(c: char) -> Seq<char> {
    if c == '&' {
        "&amp;"@
    } else if c == '<' {
        "&lt;"@
    } else if c == '>' {
        "&gt;"@
    } else {
        seq![c]
    }
}

/// HTML-escaping of text: `&`, `<` and `>` are replaced, nothing else.
pub open spec fn html_escaped(s: Seq<char>) -> Seq<char>
    decreases s.len(),
{
    if s.len() == 0 {
        Seq::<char>::empty()
    } else {
        escape_char(s[0]) + html_escaped(s.drop_first())
    }
}

/// Relies on `html_escape::encode_text`: it escapes exactly `&` (to `&amp;`),
/// `<` (to `&lt;`) and `>` (to `&gt;`) and copies every other character.
#[verifier::external_body]
fn encode_text(s: &str) -> (r: String)
    ensures
        r@ == html_escaped(s@),
{
    String::from(html_escape::encode_text(s))
}

/// The page shown when the callback delivered an API key.
pub fn create_success_page() -> (r: String)
    ensures
        r@ == SUCCESS_HEAD@ + RICOCHET_UI_CSS@ + SUCCESS_TAIL@,
{
    let mut r = String::from_str(SUCCESS_HEAD);
    r.append(RICOCHET_UI_CSS);
    r.append(SUCCESS_TAIL);
    r
}

/// The page shown when the callback reported an error; the error text is
/// HTML-escaped before being spliced in.
pub fn create_error_page(error: &str) -> (r: String)
    ensures
        r@ == ERROR_HEAD@ + RICOCHET_UI_CSS@ + ERROR_MID@ + html_escaped(error@) + ERROR_TAIL@,
{
    let mut r = String::from_str(ERROR_HEAD);
    r.append(RICOCHET_UI_CSS);
    r.append(ERROR_MID);
    let escaped = encode_text(error);
    r.append(escaped.as_str());
    r.append(ERROR_TAIL);
    r
}

/// The page shown when the callback delivered a session token, or nothing
/// recognizable at all (the lenient fallback).
pub fn create_session_page() -> (r: String)
    ensures
        r@ == SESSION_HEAD@ + RICOCHET_UI_CSS@ + SESSION_TAIL@,
{
    let mut r = String::from_str(SESSION_HEAD);
    r.append(RICOCHET_UI_CSS);
    r.append(SESSION_TAIL);
    r
}

} // verus!
