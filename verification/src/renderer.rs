pub mod css;
pub mod dom;
pub mod html;
pub mod js;
pub mod layout;
pub mod page;
