//! The captive portal's login page.
use vstd::prelude::*;

verus! {

/// The login page the captive portal serves.
pub const LOGIN_PAGE: &'static str = r#"<!DOCTYPE html>
<html lang="en">
<head>
    <meta charset="UTF-8">
    <meta name="viewport" content="width=device-width, initial-scale=1.0">
    <title>WiFi Login</title>
    <style>
        body {
            font-family: Arial, sans-serif;
            display: flex;
            justify-content: center;
            align-items: center;
            height: 100vh;
            margin: 0;
            background-color: #f5f5f5;
        }
        .login-container {
            background: white;
            padding: 2rem;
            border-radius: 8px;
            box-shadow: 0 4px 6px rgba(0,0,0,0.1);
            width: 100%;
            max-width: 400px;
        }
        h1 {
            text-align: center;
            color: #333;
        }
        input {
            width: 100%;
            padding: 0.75rem;
            margin: 0.5rem 0;
            border: 1px solid #ddd;
            border-radius: 4px;
            box-sizing: border-box;
        }
        button {
            width: 100%;
            padding: 0.75rem;
            background-color: #0056b3;
            color: white;
            border: none;
            border-radius: 4px;
            cursor: pointer;
            margin-top: 1rem;
        }
        button:hover {
            background-color: #003d82;
        }
        .guest-button {
            background-color: #28a745;
        }
        .guest-button:hover {
            background-color: #218838;
        }
        .terms-checkbox {
            display: block;
            margin: 1rem 0;
        }
    </style>
</head>
<body>
    <div class="login-container">
        <h1>Welcome to WiFi</h1>
        
        <form id="login-form">
            <input type="text" placeholder="Username" name="username" required>
            <input type="password" placeholder="Password" name="password" required>
            <button type="submit">Log In</button>
        </form>
        
        <hr style="margin: 1.5rem 0">
        
        <div>
            <h3>Guest Access</h3>
            <form id="guest-form">
                <input type="email" placeholder="Your email" name="email" required>
                <label class="terms-checkbox">
                    <input type="checkbox" name="accept_terms" required>
                    I accept the terms and conditions
                </label>
                <button type="submit" class="guest-button">Continue as Guest</button>
            </form>
        </div>
    </div>
</body>
</html>"#;

/// The web interface for guest access.
#[derive(Debug, Clone, Copy)]
pub struct CaptivePortal {}

impl CaptivePortal {
    /// A captive portal.
    pub fn new() -> (r: CaptivePortal) {
        CaptivePortal {}
    }

    /// The HTML of the login page.
    pub fn get_login_page(&self) -> (r: String)
        ensures
            r@ == LOGIN_PAGE@,
    {
        LOGIN_PAGE.to_owned()
    }
}

} // verus!
