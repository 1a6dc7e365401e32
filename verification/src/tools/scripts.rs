//! The scripts that the session tools have the page run.

use vstd::prelude::*;

verus! {

/// The click script up to the selector.
pub const CLICK_HEAD: &'static str = r"(function(){
            const sel = ";

/// The click script after the selector.
pub const CLICK_TAIL: &'static str = r";
            const el = document.querySelector(sel);
            if (!el) return 'ERROR: no element matches selector: ' + sel;
            el.click();
            const label = el.textContent.trim().slice(0, 60) || el.tagName;
            return 'Clicked: ' + label;
        })()";

/// The fill script up to the selector.
pub const FILL_HEAD: &'static str = r"(function(){
            const sel = ";

/// The fill script between the selector and the value.
pub const FILL_MIDDLE: &'static str = r";
            const val = ";

/// The fill script after the value.
pub const FILL_TAIL: &'static str = r";
            const el = document.querySelector(sel);
            if (!el) return 'ERROR: no element matches selector: ' + sel;
            el.focus();
            el.value = val;
            el.dispatchEvent(new Event('input', {bubbles: true}));
            el.dispatchEvent(new Event('change', {bubbles: true}));
            return 'Filled ' + (el.name || el.id || el.tagName);
        })()";

/// The extraction script up to the list of keys.
pub const SEMANTIC_DATA_HEAD: &'static str = r"(function(){
        const keys = ";

/// The extraction script after the list of keys.
pub const SEMANTIC_DATA_TAIL: &'static str = r#";
        const result = {};
        
        keys.forEach(key => {
            const selectors = [
                `[class*="${key}" i]`,
                `[id*="${key}" i]`,
                `[itemprop="${key}"]`,
                `[aria-label*="${key}" i]`,
                `[data-testid*="${key}" i]`,
                `[name*="${key}" i]`
            ];
            
            for (const sel of selectors) {
                const el = document.querySelector(sel);
                if (el && el.textContent.trim()) {
                    result[key] = el.textContent.trim().slice(0, 200);
                    break;
                }
            }
        });
        
        return JSON.stringify(result);
    })()"#;

/// Lists the forms of the page and their fields.
pub const INSPECT_FORM: &'static str = r"(function(){
        const forms = Array.from(document.querySelectorAll('form'));
        if (forms.length === 0) return '[]';
        
        const result = forms.map((form, idx) => ({
            index: idx,
            action: form.action || '',
            method: form.method || 'GET',
            fields: Array.from(form.querySelectorAll('input, textarea, select')).map(field => ({
                name: field.name || '',
                type: field.type || 'text',
                label: (field.labels && field.labels[0] ? field.labels[0].textContent.trim() : '') || field.placeholder || '',
                required: field.required
            }))
        }));
        return JSON.stringify(result);
    })()";

/// Describes the structure of the page.
pub const PAGE_STRUCTURE: &'static str = r#"(function(){
        const result = {
            title: document.title || '',
            url: window.location.href,
            headings: Array.from(document.querySelectorAll('h1, h2, h3')).map(h => h.textContent.trim()).slice(0, 10),
            forms: document.querySelectorAll('form').length,
            inputs: document.querySelectorAll('input, textarea, select').length,
            buttons: Array.from(document.querySelectorAll('button, input[type="submit"]')).map(b => b.textContent.trim() || b.value).slice(0, 10),
            links: Array.from(document.querySelectorAll('a[href]')).slice(0, 20).map(a => ({
                text: a.textContent.trim().slice(0, 50),
                href: a.href
            }))
        };
        return JSON.stringify(result);
    })()"#;

/// Lists the fields of each form, with what they can be found by.
pub const DISCOVER_FORMS: &'static str = r"(function(){
        const forms = Array.from(document.querySelectorAll('form'));
        if (forms.length === 0) return '[]';
        return JSON.stringify(forms.map(form => ({
            fields: Array.from(form.querySelectorAll('input, textarea, select')).map(field => ({
                name: field.name || '',
                type: field.type || 'text',
                label: (field.labels && field.labels[0] ? field.labels[0].textContent.trim() : '') || field.placeholder || '',
                id: field.id || ''
            }))
        })));
    })()";

/// Presses the submit button.
pub const SUBMIT_FORM: &'static str = r#"(function(){
            const btn = document.querySelector('button[type="submit"], input[type="submit"]');
            if (btn) { btn.click(); return 'submitted'; }
            return 'no button';
        })()"#;

} // verus!
