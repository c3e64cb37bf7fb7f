//! The pages of the download server: the listing of a directory, with its
//! entries, the way back and the zip download, and the error page.  Reading
//! the directory and the link's expiry is left to the caller.
use vstd::prelude::*;
use crate::server::{format_size, size_label};
use crate::text::{
    chars_of, owned, push_all, push_str_chars, signed_decimal, signed_decimal_chars, string_of,
    trim_end_char, trim_end_char_exec,
};

verus! {

/// The directory page up to its title.
pub const INDEX_PAGE_1: &'static str = "\"<!DOCTYPE html>\n<html lang=\"en\">\n<head>\n    <meta charset=\"UTF-8\">\n    <meta name=\"viewport\" content=\"width=device-width, initial-scale=1.0\">\n    <title>Download - ";

/// The directory page between its title and its heading.
pub const INDEX_PAGE_2: &'static str = "</title>\n    <link href=\"https://fonts.googleapis.com/css2?family=Outfit:wght@300;400;600;700&display=swap\" rel=\"stylesheet\">\n    <style>\n        :root {\n            --bg-color: #0c0d14;\n            --text-color: #f1f2f6;\n            --glass-bg: rgba(255, 255, 255, 0.03);\n            --glass-border: rgba(255, 255, 255, 0.08);\n            --glass-hover: rgba(255, 255, 255, 0.07);\n            --primary: #4f46e5;\n            --primary-hover: #4338ca;\n            --accent: #10b981;\n        }\n        \n        * {\n            box-sizing: border-box;\n            margin: 0;\n            padding: 0;\n        }\n        \n        body {\n            font-family: 'Outfit', sans-serif;\n            background-color: var(--bg-color);\n            background-image: \n                radial-gradient(circle at 10% 20%, rgba(79, 70, 229, 0.08) 0%, transparent 40%),\n                radial-gradient(circle at 90% 80%, rgba(16, 185, 129, 0.05) 0%, transparent 40%);\n            color: var(--text-color);\n            min-height: 100vh;\n            display: flex;\n            justify-content: center;\n            align-items: center;\n            padding: 20px;\n        }\n        \n        .container {\n            width: 100%;\n            max-width: 800px;\n            background: var(--glass-bg);\n            backdrop-filter: blur(20px);\n            -webkit-backdrop-filter: blur(20px);\n            border: 1px solid var(--glass-border);\n            border-radius: 24px;\n            padding: 40px;\n            box-shadow: 0 20px 50px rgba(0, 0, 0, 0.3);\n            animation: fadeIn 0.6s ease-out;\n        }\n        \n        @keyframes fadeIn {\n            from { opacity: 0; transform: translateY(15px); }\n            to { opacity: 1; transform: translateY(0); }\n        }\n        \n        .header {\n            display: flex;\n            justify-content: space-between;\n            align-items: center;\n            margin-bottom: 30px;\n            border-bottom: 1px solid var(--glass-border);\n            padding-bottom: 20px;\n            flex-wrap: wrap;\n            gap: 20px;\n        }\n        \n        .title-area {\n            flex: 1;\n            min-width: 250px;\n        }\n        \n        .folder-title {\n            font-size: 24px;\n            font-weight: 700;\n            letter-spacing: -0.5px;\n            color: #ffffff;\n            margin-bottom: 5px;\n            word-break: break-all;\n        }\n        \n        .timer-badge {\n            display: inline-flex;\n            align-items: center;\n            background: rgba(239, 68, 68, 0.1);\n            color: #ef4444;\n            border: 1px solid rgba(239, 68, 68, 0.2);\n            padding: 4px 12px;\n            border-radius: 50px;\n            font-size: 13px;\n            font-weight: 600;\n        }\n        \n        .actions-area {\n            display: flex;\n            gap: 12px;\n        }\n        \n        .btn {\n            display: inline-flex;\n            align-items: center;\n            justify-content: center;\n            padding: 12px 20px;\n            border-radius: 12px;\n            font-weight: 600;\n            text-decoration: none;\n            cursor: pointer;\n            transition: all 0.2s ease;\n            font-size: 14px;\n        }\n        \n        .btn-primary {\n            background: var(--primary);\n            color: #ffffff;\n            border: none;\n            box-shadow: 0 4px 14px rgba(79, 70, 229, 0.3);\n        }\n        \n        .btn-primary:hover {\n            background: var(--primary-hover);\n            transform: translateY(-2px);\n            box-shadow: 0 6px 20px rgba(79, 70, 229, 0.4);\n        }\n        \n        .btn-secondary {\n            background: var(--glass-bg);\n            color: var(--text-color);\n            border: 1px solid var(--glass-border);\n        }\n        \n        .btn-secondary:hover {\n            background: var(--glass-hover);\n            transform: translateY(-2px);\n        }\n        \n        .files-list {\n            display: flex;\n            flex-direction: column;\n            gap: 8px;\n            margin-bottom: 20px;\n            max-height: 500px;\n            overflow-y: auto;\n            padding-right: 5px;\n        }\n        \n        .files-list::-webkit-scrollbar {\n            width: 6px;\n        }\n        \n        .files-list::-webkit-scrollbar-track {\n            background: transparent;\n        }\n        \n        .files-list::-webkit-scrollbar-thumb {\n            background: var(--glass-border);\n            border-radius: 10px;\n        }\n        \n        .file-item {\n            display: flex;\n            justify-content: space-between;\n            align-items: center;\n            padding: 14px 20px;\n            background: var(--glass-bg);\n            border: 1px solid var(--glass-border);\n            border-radius: 14px;\n            transition: all 0.2s ease;\n        }\n        \n        .file-item:hover {\n            background: var(--glass-hover);\n            border-color: rgba(255, 255, 255, 0.15);\n            transform: scale(1.005);\n        }\n        \n        .file-info {\n            display: flex;\n            align-items: center;\n            gap: 15px;\n            flex: 1;\n            min-width: 0;\n        }\n        \n        .file-icon {\n            font-size: 20px;\n            user-select: none;\n        }\n        \n        .file-name {\n            color: var(--text-color);\n            text-decoration: none;\n            font-weight: 500;\n            overflow: hidden;\n            text-overflow: ellipsis;\n            white-space: nowrap;\n            transition: color 0.2s ease;\n        }\n        \n        .file-name:hover {\n            color: #ffffff;\n        }\n        \n        .file-size {\n            font-size: 14px;\n            color: rgba(255, 255, 255, 0.5);\n            font-weight: 500;\n            margin-left: 15px;\n        }\n        \n        .footer {\n            text-align: center;\n            margin-top: 30px;\n            font-size: 13px;\n            color: rgba(255, 255, 255, 0.3);\n        }\n    </style>\n</head>\n<body>\n    <div class=\"container\">\n        <div class=\"header\">\n            <div class=\"title-area\">\n                <h1 class=\"folder-title\">";

/// The directory page between its heading and the way back.
pub const INDEX_PAGE_3: &'static str = "</h1>\n                <div class=\"timer-badge\" id=\"countdown-badge\">?? Loading...</div>\n            </div>\n            <div class=\"actions-area\">\n                ";

/// The directory page between the way back and the address of the zip.
pub const INDEX_PAGE_4: &'static str = "\n                <a href=\"";

/// The directory page between the address of the zip and the entries.
pub const INDEX_PAGE_5: &'static str = "\" class=\"btn btn-primary\">? Download Entire Folder (.zip)</a>\n            </div>\n        </div>\n        \n        <div class=\"files-list\">\n            ";

/// The directory page between the entries and the expiry time.
pub const INDEX_PAGE_6: &'static str = "\n        </div>\n        \n        <div class=\"footer\">\n            Powered by Magpie Server &bull; Secure Download Link\n        </div>\n    </div>\n\n    <script>\n        const expiresAt = ";

/// The directory page after the expiry time.
pub const INDEX_PAGE_7: &'static str = ";\n        \n        function updateCountdown() {\n            const now = Math.floor(Date.now() / 1000);\n            const remaining = expiresAt - now;\n            const badge = document.getElementById('countdown-badge');\n            \n            if (remaining <= 0) {\n                badge.innerText = \"?? Expired\";\n                badge.style.background = \"rgba(239, 68, 68, 0.2)\";\n                badge.style.color = \"#ef4444\";\n                badge.style.borderColor = \"rgba(239, 68, 68, 0.4)\";\n                setTimeout(() => location.reload(), 2000);\n                return;\n            }\n            \n            const hours = Math.floor(remaining / 3600);\n            const minutes = Math.floor((remaining % 3600) / 60);\n            const seconds = remaining % 60;\n            \n            let timeStr = \"\";\n            if (hours > 0) timeStr += hours + \"h \";\n            if (minutes > 0 || hours > 0) timeStr += minutes + \"m \";\n            timeStr += seconds + \"s\";\n            \n            badge.innerText = \"?? Link expires in \" + timeStr;\n        }\n        \n        if (expiresAt > 0) {\n            updateCountdown();\n            setInterval(updateCountdown, 1000);\n        } else {\n            document.getElementById('countdown-badge').style.display = 'none';\n        }\n    </script>\n</body>\n</html>\"";

/// An entry of a directory page up to its icon.
pub const ENTRY_1: &'static str = "\"\n            <div class=\"file-item\">\n                <div class=\"file-info\">\n                    <span class=\"file-icon\">";

/// An entry between its icon and its address.
pub const ENTRY_2: &'static str = "</span>\n                    <a href=\"";

/// An entry between its address and its name.
pub const ENTRY_3: &'static str = "\" class=\"file-name\">";

/// An entry between its name and its size.
pub const ENTRY_4: &'static str = "</a>\n                </div>\n                <span class=\"file-size\">";

/// An entry after its size.
pub const ENTRY_5: &'static str = "</span>\n            </div>\n            \"";

/// The way back up to its address.
pub const BACK_1: &'static str = "\"<a href=\"";

/// The way back after its address.
pub const BACK_2: &'static str = "\" class=\"btn btn-secondary\">?? Back</a>\"";

/// The error page up to its title.
pub const ERROR_PAGE_1: &'static str = "\"<!DOCTYPE html>\n<html lang=\"en\">\n<head>\n    <meta charset=\"UTF-8\">\n    <meta name=\"viewport\" content=\"width=device-width, initial-scale=1.0\">\n    <title>Error - ";

/// The error page between its title and its heading.
pub const ERROR_PAGE_2: &'static str = "</title>\n    <link href=\"https://fonts.googleapis.com/css2?family=Outfit:wght@300;400;600;700&display=swap\" rel=\"stylesheet\">\n    <style>\n        :root {\n            --bg-color: #0c0d14;\n            --text-color: #f1f2f6;\n            --glass-bg: rgba(255, 255, 255, 0.03);\n            --glass-border: rgba(255, 255, 255, 0.08);\n            --primary: #ef4444;\n        }\n        body {\n            font-family: 'Outfit', sans-serif;\n            background-color: var(--bg-color);\n            color: var(--text-color);\n            min-height: 100vh;\n            display: flex;\n            justify-content: center;\n            align-items: center;\n            padding: 20px;\n        }\n        .container {\n            width: 100%;\n            max-width: 500px;\n            background: var(--glass-bg);\n            backdrop-filter: blur(20px);\n            border: 1px solid var(--glass-border);\n            border-radius: 24px;\n            padding: 40px;\n            text-align: center;\n            box-shadow: 0 20px 50px rgba(0, 0, 0, 0.3);\n        }\n        .icon {\n            font-size: 50px;\n            margin-bottom: 20px;\n        }\n        h1 {\n            font-size: 24px;\n            margin-bottom: 15px;\n            color: #ffffff;\n        }\n        p {\n            font-size: 15px;\n            color: rgba(255, 255, 255, 0.6);\n            line-height: 1.6;\n        }\n    </style>\n</head>\n<body>\n    <div class=\"container\">\n        <div class=\"icon\">??</div>\n        <h1>";

/// The error page between its heading and its message.
pub const ERROR_PAGE_3: &'static str = "</h1>\n        <p>";

/// The error page after its message.
pub const ERROR_PAGE_4: &'static str = "</p>\n    </div>\n</body>\n</html>\"";

/// The icon of an entry (the same for folders and files).
pub const ENTRY_ICON: &'static str = "??";

/// The texts joined with `sep` between them.
pub open spec fn joined(items: Seq<Seq<char>>, sep: Seq<char>) -> Seq<char>
    decreases items.len(),
{
    if items.len() == 0 {
        seq![]
    } else if items.len() == 1 {
        items[0]
    } else {
        joined(items.drop_last(), sep) + sep + items.last()
    }
}

/// The texts joined with line breaks between them.
pub fn join_lines(items: &Vec<String>) -> (r: String)
    ensures
        r@ == joined(items.deep_view(), seq!['\n']),
{
    let ghost all = items.deep_view();
    let mut out: Vec<char> = Vec::new();
    let mut i: usize = 0;
    assert(all.take(0) =~= Seq::<Seq<char>>::empty());
    while i < items.len()
        invariant
            i <= items.len(),
            all == items.deep_view(),
            out@ == joined(all.take(i as int), seq!['\n']),
        decreases items.len() - i,
    {
        assert(all.take(i + 1).drop_last() =~= all.take(i as int));
        assert(all[i as int] == items@[i as int]@);
        if i > 0 {
            out.push('\n');
        }
        push_str_chars(&mut out, items[i].as_str());
        i = i + 1;
    }
    assert(all.take(items.len() as int) =~= all);
    string_of(&out)
}

/// The listing of a directory: its name as title and heading, the way
/// back, the address of the zip, the entries and the expiry time (0 for
/// none, which hides the countdown).
pub open spec fn index_page_of(folder: Seq<char>, back: Seq<char>, zip_link: Seq<char>, entries: Seq<char>, expires_at: int) -> Seq<char> {
    INDEX_PAGE_1@ + folder + INDEX_PAGE_2@ + folder + INDEX_PAGE_3@ + back + INDEX_PAGE_4@ + zip_link
        + INDEX_PAGE_5@ + entries + INDEX_PAGE_6@ + signed_decimal(expires_at) + INDEX_PAGE_7@
}

/// The way back to the parent folder.
pub open spec fn back_html_of(link: Seq<char>) -> Seq<char> {
    BACK_1@ + link + BACK_2@
}

/// An entry of a directory listing.
pub open spec fn entry_html_of(link: Seq<char>, name: Seq<char>, size: Seq<char>) -> Seq<char> {
    ENTRY_1@ + ENTRY_ICON@ + ENTRY_2@ + link + ENTRY_3@ + name + ENTRY_4@ + size + ENTRY_5@
}

/// An entry of a directory listing.
pub fn entry_html(link: &str, name: &str, size: &str) -> (r: String)
    ensures
        r@ == entry_html_of(link@, name@, size@),
{
    let mut out = chars_of(ENTRY_1);
    push_str_chars(&mut out, ENTRY_ICON);
    push_str_chars(&mut out, ENTRY_2);
    push_str_chars(&mut out, link);
    push_str_chars(&mut out, ENTRY_3);
    push_str_chars(&mut out, name);
    push_str_chars(&mut out, ENTRY_4);
    push_str_chars(&mut out, size);
    push_str_chars(&mut out, ENTRY_5);
    string_of(&out)
}

/// The listing of a directory, with the way back where there is one.
pub fn index_page(folder: &str, back_link: Option<&str>, zip_link: &str, entries: &Vec<String>, expires_at: i64) -> (r: String)
    ensures
        r@ == index_page_of(folder@, match back_link {
            Some(l) => back_html_of(l@),
            None => seq![],
        }, zip_link@, joined(entries.deep_view(), seq!['\n']), expires_at as int),
{
    let mut out = chars_of(INDEX_PAGE_1);
    push_str_chars(&mut out, folder);
    push_str_chars(&mut out, INDEX_PAGE_2);
    push_str_chars(&mut out, folder);
    push_str_chars(&mut out, INDEX_PAGE_3);
    match back_link {
        Some(l) => {
            push_str_chars(&mut out, BACK_1);
            push_str_chars(&mut out, l);
            push_str_chars(&mut out, BACK_2);
        },
        None => {},
    }
    push_str_chars(&mut out, INDEX_PAGE_4);
    push_str_chars(&mut out, zip_link);
    push_str_chars(&mut out, INDEX_PAGE_5);
    let files = join_lines(entries);
    push_str_chars(&mut out, files.as_str());
    push_str_chars(&mut out, INDEX_PAGE_6);
    let e = signed_decimal_chars(expires_at);
    push_all(&mut out, &e);
    push_str_chars(&mut out, INDEX_PAGE_7);
    string_of(&out)
}

/// The error page with a title and a message.
pub open spec fn error_page_of(title: Seq<char>, message: Seq<char>) -> Seq<char> {
    ERROR_PAGE_1@ + title + ERROR_PAGE_2@ + title + ERROR_PAGE_3@ + message + ERROR_PAGE_4@
}

/// The error page with a title and a message.
pub fn error_page(title: &str, message: &str) -> (r: String)
    ensures
        r@ == error_page_of(title@, message@),
{
    let mut out = chars_of(ERROR_PAGE_1);
    push_str_chars(&mut out, title);
    push_str_chars(&mut out, ERROR_PAGE_2);
    push_str_chars(&mut out, title);
    push_str_chars(&mut out, ERROR_PAGE_3);
    push_str_chars(&mut out, message);
    push_str_chars(&mut out, ERROR_PAGE_4);
    string_of(&out)
}

/// The address under the link of `token` of the path `rest` (none for the
/// link's root).
pub open spec fn download_path_of(token: Seq<char>, rest: Seq<char>) -> Seq<char> {
    if rest.len() == 0 {
        "/download/"@ + token
    } else {
        "/download/"@ + token + seq!['/'] + rest
    }
}

/// The address of the parent folder of a listing, from its path relative
/// to the link's root (empty at the root's level).
pub fn parent_link(token: &str, relative_parent: &str) -> (r: String)
    ensures
        r@ == download_path_of(token@, relative_parent@),
{
    let mut out = chars_of("/download/");
    push_str_chars(&mut out, token);
    let rp = chars_of(relative_parent);
    if rp.len() > 0 {
        out.push('/');
        push_all(&mut out, &rp);
    }
    string_of(&out)
}

/// The address of an entry named `name` in the listing of `subpath`.
pub open spec fn entry_link_of(token: Seq<char>, subpath: Seq<char>, name: Seq<char>) -> Seq<char> {
    if subpath.len() == 0 {
        "/download/"@ + token + seq!['/'] + name
    } else {
        "/download/"@ + token + seq!['/'] + trim_end_char(subpath, '/') + seq!['/'] + name
    }
}

/// The address of an entry in a listing.
pub fn entry_link(token: &str, subpath: &str, name: &str) -> (r: String)
    ensures
        r@ == entry_link_of(token@, subpath@, name@),
{
    let mut out = chars_of("/download/");
    push_str_chars(&mut out, token);
    out.push('/');
    let sp = chars_of(subpath);
    if sp.len() > 0 {
        let t = trim_end_char_exec(&sp, '/');
        push_all(&mut out, &t);
        out.push('/');
    }
    push_str_chars(&mut out, name);
    string_of(&out)
}

/// The address of the zip of the listing of `subpath`.
pub open spec fn zip_link_of(token: Seq<char>, subpath: Seq<char>) -> Seq<char> {
    if subpath.len() == 0 {
        "/download/"@ + token + "?zip=true"@
    } else {
        "/download/"@ + token + seq!['/'] + trim_end_char(subpath, '/') + "?zip=true"@
    }
}

/// The address of the zip of a listing.
pub fn zip_link(token: &str, subpath: &str) -> (r: String)
    ensures
        r@ == zip_link_of(token@, subpath@),
{
    let mut out = chars_of("/download/");
    push_str_chars(&mut out, token);
    let sp = chars_of(subpath);
    if sp.len() > 0 {
        out.push('/');
        let t = trim_end_char_exec(&sp, '/');
        push_all(&mut out, &t);
    }
    push_str_chars(&mut out, "?zip=true");
    string_of(&out)
}

/// The size column of an entry: `-` for a folder, the formatted size of a file.
pub fn entry_size(is_dir: bool, bytes: u64) -> (r: String)
    ensures
        r@ == if is_dir {
            "-"@
        } else {
            size_label(bytes as nat)
        },
{
    if is_dir {
        owned("-")
    } else {
        format_size(bytes)
    }
}

/// The title of a listing: the folder's name, `Downloads` where it has none.
pub fn folder_title(name: Option<&str>) -> (r: String)
    ensures
        r@ == match name {
            Some(n) => n@,
            None => "Downloads"@,
        },
{
    match name {
        Some(n) => owned(n),
        None => owned("Downloads"),
    }
}

} // verus!
