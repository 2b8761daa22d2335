//! Inventory of deployed serverless functions and the package versions of
//! their source repositories.
//!
//! - [`lister`] drives the paginated function listing: it turns each page that
//!   the provider returns into the records of the functions that carry
//!   environment variables, and decides which page to ask for next.
//! - [`versions`] turns the `package.json` content fetched for each repository
//!   into a repository-to-version table, with one diagnostic per repository
//!   that gave no version.
//! - [`report`] joins the two by substring match on the function name.
pub mod lister;
pub mod report;
pub mod versions;
